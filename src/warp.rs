use vstd::prelude::*;

use crate::image::{Image, ImageError, ImageSize};
use crate::interpolation::{interpolate, interpolate_at, InterpolationMode};
use crate::resize::lemma_row_bound;

verus! {

/// A 2x3 affine matrix in fixed point: each entry is its numerator over `scale`, so the
/// output pixel at column `c`, row `r` reads the source at
/// `((m0 c + m1 r + m2) / scale, (m3 c + m4 r + m5) / scale)`.
#[derive(Clone, Copy, Debug, PartialEq, Eq, Structural)]
pub struct AffineMatrix {
    pub m0: i32,
    pub m1: i32,
    pub m2: i32,
    pub m3: i32,
    pub m4: i32,
    pub m5: i32,
    pub scale: u32,
}

/// Numerator of the source column that output pixel (`r`, `c`) reads.
pub open spec fn map_u(m: AffineMatrix, r: int, c: int) -> int {
    m.m0 * c + m.m1 * r + m.m2
}

/// Numerator of the source row that output pixel (`r`, `c`) reads.
pub open spec fn map_v(m: AffineMatrix, r: int, c: int) -> int {
    m.m3 * c + m.m4 * r + m.m5
}

/// The source coordinate of output pixel (`r`, `c`) lies in `[0, sw - 1) x [0, sh - 1)`,
/// inside the last cell in which four taps exist.
pub open spec fn in_frame(m: AffineMatrix, sh: int, sw: int, r: int, c: int) -> bool {
    &&& 0 <= map_u(m, r, c) < (sw - 1) * m.scale
    &&& 0 <= map_v(m, r, c) < (sh - 1) * m.scale
}

/// Channel `ch` of output pixel (`r`, `c`) of a warp: the interpolated source value where
/// the pixel maps into the frame, and zero elsewhere.
pub open spec fn warped_value(
    data: Seq<u8>,
    sh: int,
    sw: int,
    m: AffineMatrix,
    mode: InterpolationMode,
    r: int,
    c: int,
    ch: int,
) -> int {
    if in_frame(m, sh, sw, r, c) {
        interpolate_at(data, sh, sw, mode, map_u(m, r, c), m.scale as int, map_v(m, r, c), m.scale as int, ch)
    } else {
        0
    }
}

/// All output values of a warp to `dh` x `dw`, in the order of `resized_pixels`.
pub open spec fn warped_pixels(
    data: Seq<u8>,
    sh: int,
    sw: int,
    m: AffineMatrix,
    dh: int,
    dw: int,
    mode: InterpolationMode,
) -> Seq<u8> {
    Seq::new(
        (dh * dw * 3) as nat,
        |k: int| warped_value(data, sh, sw, m, mode, k / (dw * 3), (k / 3) % dw, k % 3) as u8,
    )
}

proof fn lemma_term_bound(a: int, x: int)
    requires
        -0x8000_0000 <= a <= 0x7fff_ffff,
        0 <= x <= 0xffff_ffff_ffff_ffff,
    ensures
        -0x8000_0000 * 0x1_0000_0000_0000_0000 <= a * x <= 0x8000_0000 * 0x1_0000_0000_0000_0000,
{
    assert(-0x8000_0000 * 0x1_0000_0000_0000_0000 <= a * x <= 0x8000_0000 * 0x1_0000_0000_0000_0000)
        by (nonlinear_arith)
        requires
            -0x8000_0000 <= a <= 0x7fff_ffff,
            0 <= x <= 0xffff_ffff_ffff_ffff,
    ;
}

/// Applies the affine map of `m` to output column `c`, row `r`.
fn map_point(m: &AffineMatrix, r: usize, c: usize) -> (p: (i128, i128))
    ensures
        p.0 == map_u(*m, r as int, c as int),
        p.1 == map_v(*m, r as int, c as int),
{
    proof {
        lemma_term_bound(m.m0 as int, c as int);
        lemma_term_bound(m.m1 as int, r as int);
        lemma_term_bound(m.m3 as int, c as int);
        lemma_term_bound(m.m4 as int, r as int);
    }
    let u = (m.m0 as i128) * (c as i128) + (m.m1 as i128) * (r as i128) + (m.m2 as i128);
    let v = (m.m3 as i128) * (c as i128) + (m.m4 as i128) * (r as i128) + (m.m5 as i128);
    (u, v)
}

/// Warps `src` by the affine matrix `m` into an image of `new_size`. Output pixels whose
/// source coordinate falls outside the frame stay zero; they are not clamped to the edge.
/// A size with a zero extent or too many values, or a matrix with scale zero, is refused
/// before anything is allocated.
pub fn warp_affine(src: &Image, m: &AffineMatrix, new_size: ImageSize, mode: InterpolationMode) -> (r:
    Result<Image, ImageError>)
    requires
        src.wf(),
    ensures
        (new_size.width == 0 || new_size.height == 0 || new_size.height * new_size.width * 3
            > usize::MAX) <==> r == Err::<Image, _>(ImageError::InvalidSize),
        !(new_size.width == 0 || new_size.height == 0 || new_size.height * new_size.width * 3
            > usize::MAX) ==> (m.scale == 0 <==> r == Err::<Image, _>(ImageError::InvalidMatrix)),
        r is Err && r->Err_0 != ImageError::InvalidSize && r->Err_0 != ImageError::InvalidMatrix
            ==> r->Err_0 is Tensor && r->Err_0->Tensor_0 is Storage,
        r is Ok ==> r->Ok_0.wf() && r->Ok_0.height_spec() == new_size.height
            && r->Ok_0.width_spec() == new_size.width && r->Ok_0.pixels() == warped_pixels(
            src.pixels(),
            src.height_spec() as int,
            src.width_spec() as int,
            *m,
            new_size.height as int,
            new_size.width as int,
            mode,
        ),
{
    if new_size.width == 0 || new_size.height == 0 {
        return Err(ImageError::InvalidSize);
    }
    let total: usize = match new_size.height.checked_mul(new_size.width) {
        Some(hw) => match hw.checked_mul(3) {
            Some(t) => t,
            None => return Err(ImageError::InvalidSize),
        },
        None => {
            proof {
                assert(new_size.height * new_size.width * 3 > usize::MAX) by (nonlinear_arith)
                    requires
                        new_size.height * new_size.width > usize::MAX,
                ;
            }
            return Err(ImageError::InvalidSize);
        },
    };
    if m.scale == 0 {
        return Err(ImageError::InvalidMatrix);
    }
    let sw = src.width();
    let sh = src.height();
    let dw = new_size.width;
    let dh = new_size.height;
    proof {
        assert(dw * 3 <= dh * dw * 3) by (nonlinear_arith)
            requires
                dh >= 1,
        ;
    }
    let row_len: usize = dw * 3;
    let d: u64 = m.scale as u64;
    proof {
        assert(d * d <= u64::MAX) by (nonlinear_arith)
            requires
                d <= 0xffff_ffff,
        ;
        assert(dh * dw * 3 == dh * row_len) by (nonlinear_arith)
            requires
                row_len == dw * 3,
        ;
    }
    let ghost full = warped_pixels(src.pixels(), sh as int, sw as int, *m, dh as int, dw as int, mode);
    let mut out: Vec<u8> = Vec::new();
    let mut k: usize = 0;
    while k < total
        invariant
            k <= total,
            total == dh * dw * 3,
            total == dh * row_len,
            row_len == dw * 3,
            dw > 0,
            src.wf(),
            sw == src.width_spec(),
            sh == src.height_spec(),
            d == m.scale,
            d > 0,
            d * d <= u64::MAX,
            full == warped_pixels(src.pixels(), sh as int, sw as int, *m, dh as int, dw as int, mode),
            out@ == full.subrange(0, k as int),
        decreases total - k,
    {
        let r = k / row_len;
        let c = (k / 3) % dw;
        let ch = k % 3;
        let (u, v) = map_point(m, r, c);
        proof {
            assert((sw - 1) * d <= 0xffff_ffff_ffff_ffff * 0xffff_ffffu64) by (nonlinear_arith)
                requires
                    sw - 1 <= 0xffff_ffff_ffff_ffffu64,
                    d <= 0xffff_ffff,
                    sw >= 1,
            ;
            assert((sh - 1) * d <= 0xffff_ffff_ffff_ffff * 0xffff_ffffu64) by (nonlinear_arith)
                requires
                    sh - 1 <= 0xffff_ffff_ffff_ffffu64,
                    d <= 0xffff_ffff,
                    sh >= 1,
            ;
        }
        let sw_limit: i128 = ((sw - 1) as i128) * (d as i128);
        let sh_limit: i128 = ((sh - 1) as i128) * (d as i128);
        let value: u8 = if 0 <= u && u < sw_limit && 0 <= v && v < sh_limit {
            interpolate(src, mode, u as u128, d, v as u128, d, ch)
        } else {
            0
        };
        out.push(value);
        proof {
            assert(full[k as int] == value);
            assert(out@ =~= full.subrange(0, k + 1));
        }
        k = k + 1;
    }
    proof {
        assert(out@ =~= full);
    }
    Image::new(new_size, out)
}

/// A translation that moves the whole output grid outside `[0, sw) x [0, sh)` of the
/// source gives an image of zeros.
pub proof fn lemma_warp_outside_is_blank(
    data: Seq<u8>,
    sh: int,
    sw: int,
    m: AffineMatrix,
    dh: int,
    dw: int,
    mode: InterpolationMode,
)
    requires
        sh > 0,
        sw > 0,
        dh > 0,
        dw > 0,
        m.scale > 0,
        m.m0 == m.scale,
        m.m1 == 0,
        m.m3 == 0,
        m.m4 == m.scale,
        m.m2 >= sw * m.scale || m.m5 >= sh * m.scale || m.m2 + (dw - 1) * m.scale < 0 || m.m5 + (
        dh - 1) * m.scale < 0,
    ensures
        warped_pixels(data, sh, sw, m, dh, dw, mode) == Seq::new((dh * dw * 3) as nat, |k: int| 0u8),
{
    let out = warped_pixels(data, sh, sw, m, dh, dw, mode);
    let zeros = Seq::new((dh * dw * 3) as nat, |k: int| 0u8);
    assert forall|k: int| 0 <= k < out.len() implies out[k] == zeros[k] by {
        let r = k / (dw * 3);
        let c = (k / 3) % dw;
        assert(dh * dw * 3 == dh * (dw * 3)) by (nonlinear_arith);
        lemma_row_bound(k, dh, dw * 3);
        vstd::arithmetic::div_mod::lemma_div_pos_is_pos(k, 3);
        vstd::arithmetic::div_mod::lemma_mod_pos_bound(k / 3, dw);
        let s = m.scale as int;
        assert(map_u(m, r, c) == s * c + m.m2);
        assert(map_v(m, r, c) == s * r + m.m5);
        assert(!in_frame(m, sh, sw, r, c)) by (nonlinear_arith)
            requires
                0 <= c < dw,
                0 <= r < dh,
                s > 0,
                map_u(m, r, c) == s * c + m.m2,
                map_v(m, r, c) == s * r + m.m5,
                m.m2 >= sw * s || m.m5 >= sh * s || m.m2 + (dw - 1) * s < 0 || m.m5 + (dh - 1) * s < 0,
                in_frame(m, sh, sw, r, c) ==> 0 <= map_u(m, r, c) < (sw - 1) * s && 0 <= map_v(
                    m,
                    r,
                    c,
                ) < (sh - 1) * s,
        ;
    }
    assert(out =~= zeros);
}

} // verus!
