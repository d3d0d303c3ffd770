//! Fitting a source size into a bounding box without changing its shape.

use vstd::prelude::*;

verus! {

/// `a / b` rounded to the nearest whole number, halves upwards.
pub open spec fn round_div(a: int, b: int) -> int {
    (2 * a + b) / (2 * b)
}

/// A size in cells has at least one cell on each axis.
pub open spec fn at_least_one(n: int) -> int {
    if n < 1 {
        1
    } else {
        n
    }
}

/// The size that `original` takes inside `bound` when both axes are scaled
/// by the smaller of the two ratios `bound / original`.
///
/// An axis of length zero has no ratio. It limits nothing and stays as short
/// as a size can be.
pub open spec fn fitted(original: (u32, u32), bound: (u32, u32)) -> (int, int) {
    let (ow, oh) = (original.0 as int, original.1 as int);
    let (bw, bh) = (bound.0 as int, bound.1 as int);
    if ow == 0 && oh == 0 {
        (1, 1)
    } else if ow == 0 {
        (1, at_least_one(bh))
    } else if oh == 0 {
        (at_least_one(bw), 1)
    } else if bw * oh <= bh * ow {
        (at_least_one(bw), at_least_one(round_div(oh * bw, ow)))
    } else {
        (at_least_one(round_div(ow * bh, oh)), at_least_one(bh))
    }
}

/// `round_div(a, b)` is the whole number nearest to `a / b`.
pub proof fn lemma_round_div_nearest(a: int, b: int)
    requires
        0 <= a,
        0 < b,
    ensures
        0 <= round_div(a, b),
        2 * a - b < 2 * b * round_div(a, b) <= 2 * a + b,
{
    let n = 2 * a + b;
    let d = 2 * b;
    let q = round_div(a, b);
    vstd::arithmetic::div_mod::lemma_fundamental_div_mod(n, d);
    vstd::arithmetic::div_mod::lemma_mod_bound(n, d);
    assert(d * q == 2 * b * q) by (nonlinear_arith)
        requires
            d == 2 * b,
    ;
    assert(q >= 0) by (nonlinear_arith)
        requires
            d * q > -d,
            d > 0,
    ;
}

/// Rounding a quotient that is at most `c` gives at most `c`.
proof fn lemma_round_div_bounded(a: int, b: int, c: int)
    requires
        0 <= a,
        0 < b,
        a <= c * b,
    ensures
        round_div(a, b) <= c,
{
    lemma_round_div_nearest(a, b);
    let q = round_div(a, b);
    assert(q <= c) by (nonlinear_arith)
        requires
            2 * b * q <= 2 * a + b,
            a <= c * b,
            0 < b,
    ;
}

/// On sizes without an empty axis, the fitted size lies inside the bound and
/// touches it on the axis with the smaller ratio, and its other axis is
/// within half a cell of the length with the original's aspect ratio, or one
/// cell where that length rounds to none.
pub proof fn lemma_fitted_keeps_aspect(original: (u32, u32), bound: (u32, u32))
    requires
        original.0 >= 1,
        original.1 >= 1,
        bound.0 >= 1,
        bound.1 >= 1,
    ensures
        ({
            let (w, h) = fitted(original, bound);
            let (ow, oh) = (original.0 as int, original.1 as int);
            let (bw, bh) = (bound.0 as int, bound.1 as int);
            &&& 1 <= w <= bw
            &&& 1 <= h <= bh
            &&& bw * oh <= bh * ow ==> w == bw && (h == 1 || 2 * (oh * bw) - ow < 2 * ow * h <= 2
                * (oh * bw) + ow)
            &&& bw * oh > bh * ow ==> h == bh && (w == 1 || 2 * (ow * bh) - oh < 2 * oh * w <= 2
                * (ow * bh) + oh)
        }),
{
    let (ow, oh) = (original.0 as int, original.1 as int);
    let (bw, bh) = (bound.0 as int, bound.1 as int);
    assert(0 <= oh * bw && 0 <= ow * bh) by (nonlinear_arith)
        requires
            0 <= ow,
            0 <= oh,
            0 <= bw,
            0 <= bh,
    ;
    if bw * oh <= bh * ow {
        lemma_round_div_nearest(oh * bw, ow);
        lemma_round_div_bounded(oh * bw, ow, bh);
    } else {
        lemma_round_div_nearest(ow * bh, oh);
        lemma_round_div_bounded(ow * bh, oh, bw);
    }
}

/// `round_div` of two products of 32-bit numbers, at least one.
fn scaled_axis(length: u32, factor: u32, divisor: u32, limit: u32) -> (n: u32)
    requires
        divisor >= 1,
        length * factor <= limit * divisor,
    ensures
        n == at_least_one(round_div(length * factor, divisor as int)),
{
    proof {
        assert(0 <= length * factor <= 0xffff_ffff * 0xffff_ffff) by (nonlinear_arith)
            requires
                0 <= length <= 0xffff_ffff,
                0 <= factor <= 0xffff_ffff,
        ;
        lemma_round_div_nearest(length * factor, divisor as int);
        lemma_round_div_bounded(length * factor, divisor as int, limit as int);
    }
    let product = (length as u128) * (factor as u128);
    let q = (2 * product + divisor as u128) / (2 * (divisor as u128));
    if q < 1 {
        1
    } else {
        q as u32
    }
}

/// Resizes to keep the aspect ratio: the size of `original_size` scaled to
/// the largest that fits in `new_size`, each axis rounded to whole cells and
/// at least one cell long.
///
/// Of sizes without an empty axis the result lies inside `new_size` and
/// touches it on one axis.
pub fn keep_aspect_ratio(original_size: (u32, u32), new_size: (u32, u32)) -> (size: (u32, u32))
    ensures
        (size.0 as int, size.1 as int) == fitted(original_size, new_size),
        size.0 >= 1,
        size.1 >= 1,
        original_size.0 >= 1 && original_size.1 >= 1 && new_size.0 >= 1 && new_size.1 >= 1 ==> {
            &&& size.0 <= new_size.0
            &&& size.1 <= new_size.1
            &&& size.0 == new_size.0 || size.1 == new_size.1
        },
{
    proof {
        if original_size.0 >= 1 && original_size.1 >= 1 && new_size.0 >= 1 && new_size.1 >= 1 {
            lemma_fitted_keeps_aspect(original_size, new_size);
        }
    }
    let (ow, oh) = original_size;
    let (bw, bh) = new_size;
    let bw1 = if bw < 1 {
        1
    } else {
        bw
    };
    let bh1 = if bh < 1 {
        1
    } else {
        bh
    };
    if ow == 0 && oh == 0 {
        (1, 1)
    } else if ow == 0 {
        (1, bh1)
    } else if oh == 0 {
        (bw1, 1)
    } else {
        proof {
            assert(0 <= bw * oh <= 0xffff_ffff * 0xffff_ffff && 0 <= bh * ow <= 0xffff_ffff
                * 0xffff_ffff) by (nonlinear_arith)
                requires
                    0 <= ow <= 0xffff_ffff,
                    0 <= oh <= 0xffff_ffff,
                    0 <= bw <= 0xffff_ffff,
                    0 <= bh <= 0xffff_ffff,
            ;
        }
        if (bw as u64) * (oh as u64) <= (bh as u64) * (ow as u64) {
            (bw1, scaled_axis(oh, bw, ow, bh))
        } else {
            (scaled_axis(ow, bh, oh, bw), bh1)
        }
    }
}

} // verus!
