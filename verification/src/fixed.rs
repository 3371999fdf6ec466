//! Small exact fixed-point helpers shared by the pipeline stages.
//!
//! Every stage of the decoder clamps a value into a window and rescales it
//! by a rational factor. Both operations are defined here once, with the
//! executable code pinned exactly to the spec-level formulas. Division
//! truncates toward zero (the negative branch mirrors the nonnegative one),
//! matching how a narrowing cast truncates a scaled analog value.

use vstd::prelude::*;

verus! {

/// `x` forced into the window `[lo, hi]`.
pub open spec fn spec_clamp(x: int, lo: int, hi: int) -> int {
    if x < lo {
        lo
    } else if x > hi {
        hi
    } else {
        x
    }
}

/// Clamps `x` into `[lo, hi]`.
pub fn clamp_i64(x: i64, lo: i64, hi: i64) -> (r: i64)
    requires
        lo <= hi,
    ensures
        r == spec_clamp(x as int, lo as int, hi as int),
{
    if x < lo {
        lo
    } else if x > hi {
        hi
    } else {
        x
    }
}

/// `x / den`, truncated toward zero.
pub open spec fn spec_div_trunc(x: int, den: int) -> int {
    if x >= 0 {
        x / den
    } else {
        -((-x) / den)
    }
}

/// A truncating division is bounded by the bound of its dividend divided
/// the same way.
pub proof fn lemma_div_trunc_bound(x: int, den: int, b: int)
    requires
        0 < den,
        0 <= b,
        -b <= x <= b,
    ensures
        -(b / den) <= spec_div_trunc(x, den) <= b / den,
{
    if x >= 0 {
        vstd::arithmetic::div_mod::lemma_div_pos_is_pos(x, den);
        vstd::arithmetic::div_mod::lemma_div_is_ordered(x, b, den);
        vstd::arithmetic::div_mod::lemma_div_pos_is_pos(b, den);
    } else {
        vstd::arithmetic::div_mod::lemma_div_pos_is_pos(-x, den);
        vstd::arithmetic::div_mod::lemma_div_is_ordered(-x, b, den);
        vstd::arithmetic::div_mod::lemma_div_pos_is_pos(b, den);
    }
}

/// Divides by `den`, truncating toward zero.
pub fn div_trunc(x: i64, den: i64) -> (r: i64)
    requires
        0 < den,
        -0x4000_0000_0000_0000 <= x <= 0x4000_0000_0000_0000,
    ensures
        r == spec_div_trunc(x as int, den as int),
        x >= 0 ==> 0 <= r <= x,
        x < 0 ==> x <= r <= 0,
{
    proof {
        if x >= 0 {
            vstd::arithmetic::div_mod::lemma_div_pos_is_pos(x as int, den as int);
            vstd::arithmetic::div_mod::lemma_div_nonincreasing(x as int, den as int);
        } else {
            vstd::arithmetic::div_mod::lemma_div_pos_is_pos(-x as int, den as int);
            vstd::arithmetic::div_mod::lemma_div_nonincreasing(-x as int, den as int);
        }
    }
    if x >= 0 {
        x / den
    } else {
        -((-x) / den)
    }
}

/// `x * num / den`, truncated toward zero.
pub open spec fn spec_muldiv(x: int, num: int, den: int) -> int {
    if x >= 0 {
        (x * num) / den
    } else {
        -((-x * num) / den)
    }
}

/// Multiplies by `num` and divides by `den`, truncating toward zero.
/// The caller bounds the product so the intermediate fits a machine word.
pub fn muldiv(x: i64, num: i64, den: i64) -> (r: i64)
    requires
        0 <= num,
        0 < den,
        -0x4000_0000_0000_0000 <= x <= 0x4000_0000_0000_0000,
        -0x4000_0000_0000_0000 <= x * num <= 0x4000_0000_0000_0000,
    ensures
        r == spec_muldiv(x as int, num as int, den as int),
        x >= 0 ==> 0 <= r <= x * num,
        x < 0 ==> x * num <= r <= 0,
{
    proof {
        if x >= 0 {
            assert(0 <= x * num) by (nonlinear_arith)
                requires
                    x >= 0,
                    num >= 0,
            ;
            vstd::arithmetic::div_mod::lemma_div_pos_is_pos(x * num, den as int);
            vstd::arithmetic::div_mod::lemma_div_nonincreasing(x * num, den as int);
        } else {
            assert(x * num <= 0 && (-x) * num == -(x * num)) by (nonlinear_arith)
                requires
                    x < 0,
                    num >= 0,
            ;
            vstd::arithmetic::div_mod::lemma_div_pos_is_pos(-(x * num), den as int);
            vstd::arithmetic::div_mod::lemma_div_nonincreasing(-(x * num), den as int);
        }
    }
    if x >= 0 {
        (x * num) / den
    } else {
        -((-x * num) / den)
    }
}

} // verus!
