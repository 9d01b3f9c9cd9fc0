use vstd::arithmetic::div_mod::{
    lemma_div_denominator,
    lemma_div_is_ordered,
    lemma_fundamental_div_mod,
    lemma_fundamental_div_mod_converse,
};
use vstd::prelude::*;

use crate::image::{pixel_index, Image, ImageError, ImageSize};
use crate::interpolation::{
    bilinear_at,
    interpolate,
    interpolate_at,
    lemma_bilinear_weighted_constant,
    lemma_coord_in_range,
    lemma_interpolate_at_integer_coordinates,
    lemma_pixel_index_bound,
    nearest_at,
    round_ratio,
    sample,
    InterpolationMode,
};

verus! {

/// Denominator of the coordinate map along an axis with `dst` output pixels.
pub open spec fn axis_den(dst: int) -> int {
    if dst > 1 {
        dst - 1
    } else {
        1
    }
}

/// Numerator of the coordinate map: output index `i` of an axis maps to the source
/// coordinate `i * (src - 1) / axis_den(dst)`, so that the first and last output pixels
/// land on the first and last source pixels.
pub open spec fn axis_num(i: int, src: int) -> int {
    i * (src - 1)
}

/// Channel `ch` of the output pixel at row `r`, column `c` when a `sh` x `sw` source
/// is resized to `dh` x `dw`.
pub open spec fn resized_value(
    data: Seq<u8>,
    sh: int,
    sw: int,
    dh: int,
    dw: int,
    mode: InterpolationMode,
    r: int,
    c: int,
    ch: int,
) -> int {
    interpolate_at(data, sh, sw, mode, axis_num(c, sw), axis_den(dw), axis_num(r, sh), axis_den(dh), ch)
}

/// All output values of a resize, row by row, pixel by pixel, channel by channel:
/// value `k` is channel `k % 3` of the pixel at row `k / (dw * 3)`, column `(k / 3) % dw`.
pub open spec fn resized_pixels(
    data: Seq<u8>,
    sh: int,
    sw: int,
    dh: int,
    dw: int,
    mode: InterpolationMode,
) -> Seq<u8> {
    Seq::new(
        (dh * dw * 3) as nat,
        |k: int| resized_value(data, sh, sw, dh, dw, mode, k / (dw * 3), (k / 3) % dw, k % 3) as u8,
    )
}

/// The output values of rows `start` up to `end` (exclusive) of a resize.
pub open spec fn resized_rows(
    data: Seq<u8>,
    sh: int,
    sw: int,
    dh: int,
    dw: int,
    mode: InterpolationMode,
    start: int,
    end: int,
) -> Seq<u8> {
    resized_pixels(data, sh, sw, dh, dw, mode).subrange(start * dw * 3, end * dw * 3)
}

pub(crate) proof fn lemma_row_bound(k: int, rows: int, row_len: int)
    requires
        0 <= k < rows * row_len,
        row_len > 0,
    ensures
        0 <= k / row_len < rows,
{
    lemma_div_is_ordered(k, rows * row_len - 1, row_len);
    lemma_div_is_ordered(0, k, row_len);
    assert(rows * row_len - 1 == (rows - 1) * row_len + (row_len - 1)) by (nonlinear_arith);
    lemma_fundamental_div_mod_converse(rows * row_len - 1, row_len, rows - 1, row_len - 1);
}

proof fn lemma_band_bounds(start: int, end: int, rows: int, dw: int)
    requires
        0 <= start <= end <= rows,
        dw > 0,
    ensures
        0 <= start * dw * 3 <= end * dw * 3 <= rows * dw * 3,
        start * dw * 3 == start * (dw * 3),
        end * dw * 3 == end * (dw * 3),
        rows * dw * 3 == rows * (dw * 3),
{
    assert(0 <= start * dw * 3 <= end * dw * 3 <= rows * dw * 3) by (nonlinear_arith)
        requires
            0 <= start <= end <= rows,
            dw > 0,
    ;
    assert(start * dw * 3 == start * (dw * 3)) by (nonlinear_arith);
    assert(end * dw * 3 == end * (dw * 3)) by (nonlinear_arith);
    assert(rows * dw * 3 == rows * (dw * 3)) by (nonlinear_arith);
}

/// Computes rows `start` up to `end` (exclusive) of `src` resized to `new_size`. Rows do
/// not depend on each other, so bands can be computed apart and joined.
pub fn resize_rows(
    src: &Image,
    new_size: ImageSize,
    mode: InterpolationMode,
    start: usize,
    end: usize,
) -> (r: Vec<u8>)
    requires
        src.wf(),
        new_size.width > 0,
        new_size.height > 0,
        new_size.height * new_size.width * 3 <= usize::MAX,
        start <= end <= new_size.height,
    ensures
        r@ == resized_rows(
            src.pixels(),
            src.height_spec() as int,
            src.width_spec() as int,
            new_size.height as int,
            new_size.width as int,
            mode,
            start as int,
            end as int,
        ),
{
    let sw = src.width();
    let sh = src.height();
    let dw = new_size.width;
    let dh = new_size.height;
    proof {
        lemma_band_bounds(start as int, end as int, dh as int, dw as int);
        assert(dw * 3 <= dh * dw * 3) by (nonlinear_arith)
            requires
                dh >= 1,
        ;
    }
    let row_len: usize = dw * 3;
    let lo: usize = start * row_len;
    let hi: usize = end * row_len;
    let du: u64 = if dw > 1 {
        (dw - 1) as u64
    } else {
        1
    };
    let dv: u64 = if dh > 1 {
        (dh - 1) as u64
    } else {
        1
    };
    proof {
        assert(du * dv <= dh * dw * 3) by (nonlinear_arith)
            requires
                1 <= du <= dw,
                1 <= dv <= dh,
        ;
    }
    let ghost full = resized_pixels(
        src.pixels(),
        sh as int,
        sw as int,
        dh as int,
        dw as int,
        mode,
    );
    let mut out: Vec<u8> = Vec::new();
    let mut k: usize = lo;
    while k < hi
        invariant
            lo <= k <= hi,
            hi <= dh * dw * 3,
            row_len == dw * 3,
            lo == start * dw * 3,
            hi == end * dw * 3,
            hi == end * row_len,
            end <= dh,
            src.wf(),
            sw == src.width_spec(),
            sh == src.height_spec(),
            du == axis_den(dw as int),
            dv == axis_den(dh as int),
            du * dv <= u64::MAX,
            full == resized_pixels(src.pixels(), sh as int, sw as int, dh as int, dw as int, mode),
            out@ == full.subrange(lo as int, k as int),
        decreases hi - k,
    {
        let r = k / row_len;
        let c = (k / 3) % dw;
        let ch = k % 3;
        proof {
            assert(dh * dw * 3 == dh * row_len) by (nonlinear_arith)
                requires
                    row_len == dw * 3,
            ;
            lemma_row_bound(k as int, dh as int, row_len as int);
            assert(c * (sw - 1) <= 0xffff_ffff_ffff_ffff * 0xffff_ffff_ffff_ffffu128) by (nonlinear_arith)
                requires
                    c <= 0xffff_ffff_ffff_ffffu64,
                    sw - 1 <= 0xffff_ffff_ffff_ffffu64,
                    sw >= 1,
            ;
            assert(r * (sh - 1) <= 0xffff_ffff_ffff_ffff * 0xffff_ffff_ffff_ffffu128) by (nonlinear_arith)
                requires
                    r <= 0xffff_ffff_ffff_ffffu64,
                    sh - 1 <= 0xffff_ffff_ffff_ffffu64,
                    sh >= 1,
            ;
            assert(c * (sw - 1) <= (sw - 1) * du) by (nonlinear_arith)
                requires
                    c < dw,
                    sw >= 1,
                    du == axis_den(dw as int),
            ;
            assert(r * (sh - 1) <= (sh - 1) * dv) by (nonlinear_arith)
                requires
                    r < dh,
                    sh >= 1,
                    dv == axis_den(dh as int),
            ;
        }
        let un: u128 = (c as u128) * ((sw - 1) as u128);
        let vn: u128 = (r as u128) * ((sh - 1) as u128);
        let v = interpolate(src, mode, un, du, vn, dv, ch);
        out.push(v);
        proof {
            assert(full[k as int] == v);
            assert(out@ =~= full.subrange(lo as int, k + 1));
        }
        k = k + 1;
    }
    out
}

/// Resizes `image` to `new_size`, mapping the corner pixels of the output onto the corner
/// pixels of the source. A size with a zero extent, or with more values than memory can
/// index, is refused before anything is allocated.
pub fn resize(image: &Image, new_size: ImageSize, mode: InterpolationMode) -> (r: Result<
    Image,
    ImageError,
>)
    requires
        image.wf(),
    ensures
        (new_size.width == 0 || new_size.height == 0 || new_size.height * new_size.width * 3
            > usize::MAX) <==> r == Err::<Image, _>(ImageError::InvalidSize),
        r is Err && r->Err_0 != ImageError::InvalidSize ==> r->Err_0 is Tensor
            && r->Err_0->Tensor_0 is Storage,
        r is Ok ==> r->Ok_0.wf() && r->Ok_0.height_spec() == new_size.height
            && r->Ok_0.width_spec() == new_size.width && r->Ok_0.pixels() == resized_pixels(
            image.pixels(),
            image.height_spec() as int,
            image.width_spec() as int,
            new_size.height as int,
            new_size.width as int,
            mode,
        ),
{
    if new_size.width == 0 || new_size.height == 0 {
        return Err(ImageError::InvalidSize);
    }
    match new_size.height.checked_mul(new_size.width) {
        Some(hw) => {
            if hw.checked_mul(3).is_none() {
                return Err(ImageError::InvalidSize);
            }
        },
        None => {
            proof {
                assert(new_size.height * new_size.width * 3 > usize::MAX) by (nonlinear_arith)
                    requires
                        new_size.height * new_size.width > usize::MAX,
                ;
            }
            return Err(ImageError::InvalidSize);
        },
    }
    let pixels = resize_rows(image, new_size, mode, 0, new_size.height);
    proof {
        lemma_band_bounds(0, new_size.height as int, new_size.height as int, new_size.width as int);
        let full = resized_pixels(
            image.pixels(),
            image.height_spec() as int,
            image.width_spec() as int,
            new_size.height as int,
            new_size.width as int,
            mode,
        );
        assert(pixels@ =~= full);
    }
    Image::new(new_size, pixels)
}

/// Rows computed as separate bands and joined in order give exactly the whole resized
/// image, whatever the row at which the output is split.
pub proof fn lemma_row_bands_compose(
    data: Seq<u8>,
    sh: int,
    sw: int,
    dh: int,
    dw: int,
    mode: InterpolationMode,
    split: int,
)
    requires
        dh > 0,
        dw > 0,
        0 <= split <= dh,
    ensures
        resized_rows(data, sh, sw, dh, dw, mode, 0, split) + resized_rows(
            data,
            sh,
            sw,
            dh,
            dw,
            mode,
            split,
            dh,
        ) == resized_pixels(data, sh, sw, dh, dw, mode),
{
    lemma_band_bounds(0, split, dh, dw);
    lemma_band_bounds(split, dh, dh, dw);
    let full = resized_pixels(data, sh, sw, dh, dw, mode);
    assert(full.subrange(0, split * dw * 3) + full.subrange(split * dw * 3, dh * dw * 3) =~= full);
}

/// Value `k` of a row-major buffer `w` pixels wide is channel `k % 3` of the pixel at row
/// `k / (w * 3)`, column `(k / 3) % w`.
proof fn lemma_index_decompose(k: int, w: int)
    requires
        0 <= k,
        w > 0,
    ensures
        pixel_index(w, k / (w * 3), (k / 3) % w, k % 3) == k,
{
    lemma_fundamental_div_mod(k, 3);
    lemma_fundamental_div_mod(k / 3, w);
    lemma_div_denominator(k, 3, w);
    assert(3 * w == w * 3) by (nonlinear_arith);
    let r = k / (w * 3);
    let c = (k / 3) % w;
    assert((r * w + c) * 3 + k % 3 == 3 * (w * r + c) + k % 3) by (nonlinear_arith);
}

/// Resizing an image to its own size gives back the source values, in both modes: every
/// output pixel maps onto a source pixel with no fractional part.
pub proof fn lemma_resize_identity(data: Seq<u8>, h: int, w: int, mode: InterpolationMode)
    requires
        h > 0,
        w > 0,
        data.len() == h * w * 3,
    ensures
        resized_pixels(data, h, w, h, w, mode) == data,
{
    let out = resized_pixels(data, h, w, h, w, mode);
    assert forall|k: int| 0 <= k < data.len() implies out[k] == data[k] by {
        let r = k / (w * 3);
        let c = (k / 3) % w;
        let ch = k % 3;
        lemma_index_decompose(k, w);
        assert(h * w * 3 == h * (w * 3)) by (nonlinear_arith);
        lemma_row_bound(k, h, w * 3);
        assert(0 <= c < w) by {
            vstd::arithmetic::div_mod::lemma_mod_pos_bound(k / 3, w);
            vstd::arithmetic::div_mod::lemma_div_pos_is_pos(k, 3);
        }
        assert(0 <= ch < 3) by {
            vstd::arithmetic::div_mod::lemma_mod_pos_bound(k, 3);
        }
        assert(axis_num(c, w) == c * axis_den(w)) by {
            if w == 1 {
                assert(c == 0);
            }
        }
        assert(axis_num(r, h) == r * axis_den(h)) by {
            if h == 1 {
                assert(r == 0);
            }
        }
        lemma_interpolate_at_integer_coordinates(data, h, w, c, r, axis_den(w), axis_den(h), ch);
    }
    assert(out =~= data);
}

/// Resizing an image whose values all equal `v` gives an image whose values all equal
/// `v`, in both modes, whatever the sizes.
pub proof fn lemma_resize_constant(
    data: Seq<u8>,
    sh: int,
    sw: int,
    dh: int,
    dw: int,
    mode: InterpolationMode,
    v: u8,
)
    requires
        sh > 0,
        sw > 0,
        dh > 0,
        dw > 0,
        data.len() == sh * sw * 3,
        forall|i: int| 0 <= i < data.len() ==> data[i] == v,
    ensures
        resized_pixels(data, sh, sw, dh, dw, mode) == Seq::new((dh * dw * 3) as nat, |k: int| v),
{
    let out = resized_pixels(data, sh, sw, dh, dw, mode);
    let same = Seq::new((dh * dw * 3) as nat, |k: int| v);
    assert forall|k: int| 0 <= k < out.len() implies out[k] == same[k] by {
        let r = k / (dw * 3);
        let c = (k / 3) % dw;
        let ch = k % 3;
        assert(dh * dw * 3 == dh * (dw * 3)) by (nonlinear_arith);
        lemma_row_bound(k, dh, dw * 3);
        vstd::arithmetic::div_mod::lemma_div_pos_is_pos(k, 3);
        vstd::arithmetic::div_mod::lemma_mod_pos_bound(k / 3, dw);
        vstd::arithmetic::div_mod::lemma_mod_pos_bound(k, 3);
        let du = axis_den(dw);
        let dv = axis_den(dh);
        let un = axis_num(c, sw);
        let vn = axis_num(r, sh);
        assert(0 <= un <= (sw - 1) * du) by (nonlinear_arith)
            requires
                0 <= c < dw,
                sw >= 1,
                du == axis_den(dw),
                un == c * (sw - 1),
        ;
        assert(0 <= vn <= (sh - 1) * dv) by (nonlinear_arith)
            requires
                0 <= r < dh,
                sh >= 1,
                dv == axis_den(dh),
                vn == r * (sh - 1),
        ;
        lemma_coord_in_range(un, du, sw);
        lemma_coord_in_range(vn, dv, sh);
        let iu = un / du;
        let iv = vn / dv;
        assert forall|x: int, y: int|
            0 <= x < sw && 0 <= y < sh implies #[trigger] sample(data, sw, x, y, ch) == v by {
            lemma_pixel_index_bound(sh, sw, y, x, ch);
        }
        assert(sample(data, sw, iu, iv, ch) == v);
        if iu + 1 < sw {
            assert(sample(data, sw, iu + 1, iv, ch) == v);
        }
        if iv + 1 < sh {
            assert(sample(data, sw, iu, iv + 1, ch) == v);
        }
        if iu + 1 < sw && iv + 1 < sh {
            assert(sample(data, sw, iu + 1, iv + 1, ch) == v);
        }
        lemma_bilinear_weighted_constant(v as int, un % du, du, vn % dv, dv);
        assert(bilinear_at(data, sh, sw, un, du, vn, dv, ch) == v);
        assert(sample(data, sw, round_ratio(un, du), round_ratio(vn, dv), ch) == v);
        assert(nearest_at(data, sw, un, du, vn, dv, ch) == v);
    }
    assert(out =~= same);
}

} // verus!
