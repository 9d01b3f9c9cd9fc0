use vstd::arithmetic::div_mod::{
    lemma_div_is_ordered,
    lemma_div_multiples_vanish,
    lemma_fundamental_div_mod,
    lemma_fundamental_div_mod_converse,
    lemma_mod_pos_bound,
};
use vstd::prelude::*;

use crate::image::{pixel_index, Image};

verus! {

/// How a source value is read at a fractional coordinate.
#[derive(Clone, Copy, Debug, PartialEq, Eq, Structural)]
pub enum InterpolationMode {
    /// Weighted mean of the four surrounding pixels.
    Bilinear,
    /// The single pixel nearest to the coordinate.
    Nearest,
}

/// Channel `ch` of the source pixel at column `x`, row `y`.
pub open spec fn sample(data: Seq<u8>, w: int, x: int, y: int, ch: int) -> int {
    data[pixel_index(w, y, x, ch)] as int
}

/// The mean of four samples weighted by the fractions `fu / du` across and `fv / dv`
/// down, truncated toward zero.
pub open spec fn bilinear_weighted(
    v00: int,
    v01: int,
    v10: int,
    v11: int,
    fu: int,
    du: int,
    fv: int,
    dv: int,
) -> int {
    (v00 * ((du - fu) * (dv - fv)) + v01 * (fu * (dv - fv)) + v10 * ((du - fu) * fv) + v11 * (
    fu * fv)) / (du * dv)
}

/// Bilinear sample of channel `ch` at the coordinate (`un / du`, `vn / dv`). A tap past
/// the last column or row takes the value of the top-left tap.
pub open spec fn bilinear_at(
    data: Seq<u8>,
    h: int,
    w: int,
    un: int,
    du: int,
    vn: int,
    dv: int,
    ch: int,
) -> int {
    let iu = un / du;
    let iv = vn / dv;
    let v00 = sample(data, w, iu, iv, ch);
    let v01 = if iu + 1 < w {
        sample(data, w, iu + 1, iv, ch)
    } else {
        v00
    };
    let v10 = if iv + 1 < h {
        sample(data, w, iu, iv + 1, ch)
    } else {
        v00
    };
    let v11 = if iu + 1 < w && iv + 1 < h {
        sample(data, w, iu + 1, iv + 1, ch)
    } else {
        v00
    };
    bilinear_weighted(v00, v01, v10, v11, un % du, du, vn % dv, dv)
}

/// `n / d` rounded to the nearest integer, halves up.
pub open spec fn round_ratio(n: int, d: int) -> int {
    n / d + if 2 * (n % d) >= d {
        1int
    } else {
        0int
    }
}

/// Channel `ch` of the source pixel nearest to (`un / du`, `vn / dv`).
pub open spec fn nearest_at(data: Seq<u8>, w: int, un: int, du: int, vn: int, dv: int, ch: int) -> int {
    sample(data, w, round_ratio(un, du), round_ratio(vn, dv), ch)
}

/// The value that `mode` reads at (`un / du`, `vn / dv`).
pub open spec fn interpolate_at(
    data: Seq<u8>,
    h: int,
    w: int,
    mode: InterpolationMode,
    un: int,
    du: int,
    vn: int,
    dv: int,
    ch: int,
) -> int {
    match mode {
        InterpolationMode::Bilinear => bilinear_at(data, h, w, un, du, vn, dv, ch),
        InterpolationMode::Nearest => nearest_at(data, w, un, du, vn, dv, ch),
    }
}

/// The index of a pixel inside an `h` x `w` image lies inside its buffer.
pub proof fn lemma_pixel_index_bound(h: int, w: int, r: int, c: int, ch: int)
    requires
        0 <= r < h,
        0 <= c < w,
        0 <= ch < 3,
    ensures
        0 <= r * w <= r * w + c < h * w,
        0 <= pixel_index(w, r, c, ch) < h * w * 3,
{
    assert(0 <= r * w) by (nonlinear_arith)
        requires
            0 <= r,
            0 <= c < w,
    ;
    assert(0 <= r * w + c < h * w) by (nonlinear_arith)
        requires
            0 <= r < h,
            0 <= c < w,
    ;
    assert(h * w * 3 == (h * w) * 3) by (nonlinear_arith);
}

/// A coordinate `n / d` that is at most `w - 1` has its integer part, and its rounding,
/// at most `w - 1`.
pub(crate) proof fn lemma_coord_in_range(n: int, d: int, w: int)
    requires
        0 <= n <= (w - 1) * d,
        d > 0,
        w >= 1,
    ensures
        0 <= n / d <= w - 1,
        0 <= n % d < d,
        0 <= round_ratio(n, d) <= w - 1,
{
    lemma_div_is_ordered(n, (w - 1) * d, d);
    lemma_div_is_ordered(0, n, d);
    assert((w - 1) * d == d * (w - 1)) by (nonlinear_arith);
    lemma_div_multiples_vanish(w - 1, d);
    lemma_mod_pos_bound(n, d);
    lemma_fundamental_div_mod(n, d);
    if n / d == w - 1 {
        assert(n % d == 0);
    }
}

/// The four bilinear weights add up to `du * dv`.
proof fn lemma_weights_sum(fu: int, du: int, fv: int, dv: int)
    requires
        0 <= fu < du,
        0 <= fv < dv,
    ensures
        (du - fu) * (dv - fv) + fu * (dv - fv) + (du - fu) * fv + fu * fv == du * dv,
        0 <= (du - fu) * (dv - fv) <= du * dv,
        0 <= fu * (dv - fv) <= du * dv,
        0 <= (du - fu) * fv <= du * dv,
        0 <= fu * fv <= du * dv,
{
    assert((du - fu) * (dv - fv) + fu * (dv - fv) + (du - fu) * fv + fu * fv == du * dv)
        by (nonlinear_arith);
    assert(0 <= (du - fu) * (dv - fv)) by (nonlinear_arith)
        requires
            fu < du,
            fv < dv,
    ;
    assert(0 <= fu * (dv - fv)) by (nonlinear_arith)
        requires
            0 <= fu,
            fv < dv,
    ;
    assert(0 <= (du - fu) * fv) by (nonlinear_arith)
        requires
            fu < du,
            0 <= fv,
    ;
    assert(0 <= fu * fv) by (nonlinear_arith)
        requires
            0 <= fu,
            0 <= fv,
    ;
}

/// A weighted mean of values in 0..=255 stays in 0..=255.
proof fn lemma_weighted_bounds(
    v00: int,
    v01: int,
    v10: int,
    v11: int,
    fu: int,
    du: int,
    fv: int,
    dv: int,
)
    requires
        0 <= v00 <= 255,
        0 <= v01 <= 255,
        0 <= v10 <= 255,
        0 <= v11 <= 255,
        0 <= fu < du,
        0 <= fv < dv,
    ensures
        0 <= bilinear_weighted(v00, v01, v10, v11, fu, du, fv, dv) <= 255,
{
    lemma_weights_sum(fu, du, fv, dv);
    let a = (du - fu) * (dv - fv);
    let b = fu * (dv - fv);
    let c = (du - fu) * fv;
    let d = fu * fv;
    let m = du * dv;
    let s = v00 * a + v01 * b + v10 * c + v11 * d;
    assert(0 <= s <= 255 * m) by (nonlinear_arith)
        requires
            0 <= v00 <= 255,
            0 <= v01 <= 255,
            0 <= v10 <= 255,
            0 <= v11 <= 255,
            0 <= a,
            0 <= b,
            0 <= c,
            0 <= d,
            a + b + c + d == m,
            s == v00 * a + v01 * b + v10 * c + v11 * d,
    ;
    assert(m > 0) by (nonlinear_arith)
        requires
            du > 0,
            dv > 0,
            m == du * dv,
    ;
    lemma_div_is_ordered(s, 255 * m, m);
    lemma_div_is_ordered(0, s, m);
    assert(255 * m == m * 255) by (nonlinear_arith);
    lemma_div_multiples_vanish(255, m);
}

/// A field of one value interpolates to that value.
pub proof fn lemma_bilinear_weighted_constant(v: int, fu: int, du: int, fv: int, dv: int)
    requires
        0 <= fu < du,
        0 <= fv < dv,
    ensures
        bilinear_weighted(v, v, v, v, fu, du, fv, dv) == v,
{
    lemma_weights_sum(fu, du, fv, dv);
    let a = (du - fu) * (dv - fv);
    let b = fu * (dv - fv);
    let c = (du - fu) * fv;
    let d = fu * fv;
    let m = du * dv;
    assert(v * a + v * b + v * c + v * d == m * v) by (nonlinear_arith)
        requires
            a + b + c + d == m,
    ;
    assert(m > 0) by (nonlinear_arith)
        requires
            du > 0,
            dv > 0,
            m == du * dv,
    ;
    lemma_div_multiples_vanish(v, m);
}

/// At a coordinate with no fractional part, bilinear and nearest sampling both return
/// the source pixel at that coordinate.
pub proof fn lemma_interpolate_at_integer_coordinates(
    data: Seq<u8>,
    h: int,
    w: int,
    x: int,
    y: int,
    du: int,
    dv: int,
    ch: int,
)
    requires
        du > 0,
        dv > 0,
        0 <= x < w,
        0 <= y < h,
    ensures
        bilinear_at(data, h, w, x * du, du, y * dv, dv, ch) == sample(data, w, x, y, ch),
        nearest_at(data, w, x * du, du, y * dv, dv, ch) == sample(data, w, x, y, ch),
{
    lemma_fundamental_div_mod_converse(x * du, du, x, 0);
    lemma_fundamental_div_mod_converse(y * dv, dv, y, 0);
    let v00 = sample(data, w, x, y, ch);
    let m = du * dv;
    assert(m > 0) by (nonlinear_arith)
        requires
            du > 0,
            dv > 0,
            m == du * dv,
    ;
    assert(v00 * ((du - 0) * (dv - 0)) == m * v00) by (nonlinear_arith)
        requires
            m == du * dv,
    ;
    lemma_div_multiples_vanish(v00, m);
}

/// Bilinear mean of four channel values, with weights from the fractions `fu / du` and
/// `fv / dv`, computed exactly and truncated.
fn weighted_mean(v00: u8, v01: u8, v10: u8, v11: u8, fu: u64, du: u64, fv: u64, dv: u64) -> (r: u8)
    requires
        fu < du,
        fv < dv,
        du * dv <= u64::MAX,
    ensures
        r as int == bilinear_weighted(
            v00 as int,
            v01 as int,
            v10 as int,
            v11 as int,
            fu as int,
            du as int,
            fv as int,
            dv as int,
        ),
{
    proof {
        lemma_weights_sum(fu as int, du as int, fv as int, dv as int);
        lemma_weighted_bounds(
            v00 as int,
            v01 as int,
            v10 as int,
            v11 as int,
            fu as int,
            du as int,
            fv as int,
            dv as int,
        );
    }
    let a = (du - fu) as u128;
    let b = fu as u128;
    let c = (dv - fv) as u128;
    let d = fv as u128;
    let w00 = a * c;
    let w01 = b * c;
    let w10 = a * d;
    let w11 = b * d;
    let m = (du as u128) * (dv as u128);
    proof {
        assert(m > 0) by (nonlinear_arith)
            requires
                du > 0,
                dv > 0,
                m == du * dv,
        ;
        assert(v00 as u128 * w00 <= 255 * m) by (nonlinear_arith)
            requires
                v00 <= 255,
                w00 <= m,
        ;
        assert(v01 as u128 * w01 <= 255 * m) by (nonlinear_arith)
            requires
                v01 <= 255,
                w01 <= m,
        ;
        assert(v10 as u128 * w10 <= 255 * m) by (nonlinear_arith)
            requires
                v10 <= 255,
                w10 <= m,
        ;
        assert(v11 as u128 * w11 <= 255 * m) by (nonlinear_arith)
            requires
                v11 <= 255,
                w11 <= m,
        ;
    }
    let s = (v00 as u128) * w00 + (v01 as u128) * w01 + (v10 as u128) * w10 + (v11 as u128) * w11;
    (s / m) as u8
}

/// The value that `mode` reads from `src` at (`un / du`, `vn / dv`), channel `ch`.
pub(crate) fn interpolate(
    src: &Image,
    mode: InterpolationMode,
    un: u128,
    du: u64,
    vn: u128,
    dv: u64,
    ch: usize,
) -> (r: u8)
    requires
        src.wf(),
        ch < 3,
        du > 0,
        dv > 0,
        du * dv <= u64::MAX,
        un <= (src.width_spec() - 1) * du,
        vn <= (src.height_spec() - 1) * dv,
    ensures
        r as int == interpolate_at(
            src.pixels(),
            src.height_spec() as int,
            src.width_spec() as int,
            mode,
            un as int,
            du as int,
            vn as int,
            dv as int,
            ch as int,
        ),
{
    let w = src.width();
    let h = src.height();
    proof {
        lemma_coord_in_range(un as int, du as int, w as int);
        lemma_coord_in_range(vn as int, dv as int, h as int);
    }
    let iu = (un / (du as u128)) as usize;
    let fu = (un % (du as u128)) as u64;
    let iv = (vn / (dv as u128)) as usize;
    let fv = (vn % (dv as u128)) as u64;
    match mode {
        InterpolationMode::Bilinear => {
            let v00 = src.pixel(iu, iv, ch);
            let v01 = if iu + 1 < w {
                src.pixel(iu + 1, iv, ch)
            } else {
                v00
            };
            let v10 = if iv + 1 < h {
                src.pixel(iu, iv + 1, ch)
            } else {
                v00
            };
            let v11 = if iu + 1 < w && iv + 1 < h {
                src.pixel(iu + 1, iv + 1, ch)
            } else {
                v00
            };
            weighted_mean(v00, v01, v10, v11, fu, du, fv, dv)
        },
        InterpolationMode::Nearest => {
            let x = if 2 * (fu as u128) >= du as u128 {
                iu + 1
            } else {
                iu
            };
            let y = if 2 * (fv as u128) >= dv as u128 {
                iv + 1
            } else {
                iv
            };
            src.pixel(x, y, ch)
        },
    }
}

} // verus!
