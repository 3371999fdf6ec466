//! Fixed-point sine and cosine on phases measured in turns.
//!
//! The demodulator correlates each scanline against reference sine and
//! cosine waves at the color carrier frequency. Phases are rationals
//! `num / den` of a full turn; results are integers scaled by [`SIN_ONE`].
//! On the half turn the value is the rational approximation
//! `16 t (1 - t) / (5 - 4 t (1 - t))` of `sin(pi t)` (with `t` the fraction
//! of the half turn), which is exact at 0, 1/4, 1/2, 3/4 and 1 of a turn and
//! stays within about 0.2% of the true sine in between; the second half turn
//! is its mirror image. Everything here is exact integer arithmetic, so each
//! function's result is pinned completely by its contract.

use vstd::prelude::*;
use vstd::arithmetic::div_mod::{lemma_div_is_ordered, lemma_div_by_multiple, lemma_div_pos_is_pos};

verus! {

/// Fixed-point scale of sine and cosine values: this value stands for 1.
pub const SIN_ONE: i64 = 4096;

/// The half-turn rational sine: the value at `k / den` of a half turn,
/// scaled by `SIN_ONE`, for `0 <= k <= den`.
pub open spec fn spec_half_sin(k: int, den: int) -> int {
    let a = k * (den - k);
    (SIN_ONE * 16 * a) / (5 * (den * den) - 4 * a)
}

/// Fixed-point sine of `num / den` of a full turn, scaled by `SIN_ONE`.
pub open spec fn spec_sin(num: int, den: int) -> int {
    if 2 * num <= den {
        spec_half_sin(2 * num, den)
    } else {
        -spec_half_sin(2 * num - den, den)
    }
}

/// Fixed-point cosine of `num / den` of a full turn: the sine a quarter
/// turn ahead, on the denominator `4 * den`.
pub open spec fn spec_cos(num: int, den: int) -> int {
    if 4 * num + den < 4 * den {
        spec_sin(4 * num + den, 4 * den)
    } else {
        spec_sin(4 * num - 3 * den, 4 * den)
    }
}

/// The product `k * (den - k)` stays under `den * den / 4`, since
/// `(den - 2k)^2 >= 0`; this bounds both the magnitude and the denominator
/// of the half-turn rational.
proof fn lemma_half_sin_product_bound(k: int, den: int)
    requires
        0 <= k <= den,
    ensures
        0 <= k * (den - k),
        4 * (k * (den - k)) <= den * den,
{
    assert(0 <= k * (den - k) && 4 * (k * (den - k)) <= den * den) by (nonlinear_arith)
        requires
            0 <= k <= den,
    ;
}

/// The half-turn rational sine lies in `[0, SIN_ONE]`.
pub proof fn lemma_half_sin_bounds(k: int, den: int)
    requires
        0 < den,
        0 <= k <= den,
    ensures
        0 <= spec_half_sin(k, den) <= SIN_ONE,
{
    lemma_half_sin_product_bound(k, den);
    let a = k * (den - k);
    let d = 5 * (den * den) - 4 * a;
    assert(den * den >= 1) by (nonlinear_arith)
        requires
            0 < den,
    ;
    assert(SIN_ONE * 16 * a <= SIN_ONE * d) by (nonlinear_arith)
        requires
            d == 5 * (den * den) - 4 * a,
            0 <= 4 * a <= den * den,
    ;
    lemma_div_pos_is_pos(SIN_ONE * 16 * a, d);
    lemma_div_is_ordered(SIN_ONE * 16 * a, SIN_ONE * d, d);
    lemma_div_by_multiple(SIN_ONE as int, d);
}

/// Every sine value lies in `[-SIN_ONE, SIN_ONE]`.
pub proof fn lemma_sin_bounds(num: int, den: int)
    requires
        0 < den,
        0 <= num < den,
    ensures
        -SIN_ONE <= spec_sin(num, den) <= SIN_ONE,
{
    if 2 * num <= den {
        lemma_half_sin_bounds(2 * num, den);
    } else {
        lemma_half_sin_bounds(2 * num - den, den);
    }
}

/// Every cosine value lies in `[-SIN_ONE, SIN_ONE]`.
pub proof fn lemma_cos_bounds(num: int, den: int)
    requires
        0 < den,
        0 <= num < den,
    ensures
        -SIN_ONE <= spec_cos(num, den) <= SIN_ONE,
{
    if 4 * num + den < 4 * den {
        lemma_sin_bounds(4 * num + den, 4 * den);
    } else {
        lemma_sin_bounds(4 * num - 3 * den, 4 * den);
    }
}

/// The half-turn rational sine, in executable form. The result equals the
/// spec value exactly and lies in `[0, SIN_ONE]`.
fn half_sin(k: u64, den: u64) -> (r: u64)
    requires
        0 < den <= 100000,
        k <= den,
    ensures
        r == spec_half_sin(k as int, den as int),
        r <= SIN_ONE,
{
    proof {
        lemma_half_sin_product_bound(k as int, den as int);
        assert(k * (den - k) <= 100000u64 * 100000u64) by (nonlinear_arith)
            requires
                0 <= k <= den <= 100000,
        ;
        assert(1 <= den * den <= 100000u64 * 100000u64 && 5 * den * den == 5 * (den * den))
            by (nonlinear_arith)
            requires
                0 < den <= 100000,
        ;
    }
    let a: u64 = k * (den - k);
    let numer: u64 = (SIN_ONE as u64) * 16 * a;
    let denom: u64 = 5 * den * den - 4 * a;
    proof {
        // denom >= 4 * den^2 > 0, and numer <= SIN_ONE * denom, so the
        // quotient stays within [0, SIN_ONE].
        assert(denom == 5 * ((den * den) as int) - 4 * (a as int));
        assert(denom >= 4 * ((den * den) as int));
        assert(denom > 0);
        assert(numer <= (SIN_ONE as u64) * denom) by (nonlinear_arith)
            requires
                numer == (SIN_ONE as u64) * 16 * a,
                denom == 5 * ((den * den) as int) - 4 * (a as int),
                0 <= 4 * (a as int) <= (den * den) as int,
        ;
        lemma_div_is_ordered(numer as int, SIN_ONE * denom, denom as int);
        lemma_div_by_multiple(SIN_ONE as int, denom as int);
        lemma_div_pos_is_pos(numer as int, denom as int);
    }
    numer / denom
}

/// Fixed-point sine of `num / den` of a full turn. Exactly `SIN_ONE` at a
/// quarter turn, `-SIN_ONE` at three quarters, and 0 at 0 and a half turn.
pub fn sin_fp(num: u64, den: u64) -> (r: i64)
    requires
        0 < den <= 100000,
        num < den,
    ensures
        r == spec_sin(num as int, den as int),
        -SIN_ONE <= r <= SIN_ONE,
{
    if 2 * num <= den {
        half_sin(2 * num, den) as i64
    } else {
        -(half_sin(2 * num - den, den) as i64)
    }
}

/// Fixed-point cosine of `num / den` of a full turn: the sine a quarter
/// turn ahead.
pub fn cos_fp(num: u64, den: u64) -> (r: i64)
    requires
        0 < den <= 25000,
        num < den,
    ensures
        r == spec_cos(num as int, den as int),
        -SIN_ONE <= r <= SIN_ONE,
{
    let n4: u64 = 4 * num + den;
    let d4: u64 = 4 * den;
    if n4 < d4 {
        sin_fp(n4, d4)
    } else {
        sin_fp(n4 - d4, d4)
    }
}

} // verus!
