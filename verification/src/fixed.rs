//! Signed Q32.32 fixed-point arithmetic.
//!
//! A real number `v` is represented by the raw integer `v * 2^32`, truncated
//! toward zero.  All contracts speak of raw values as mathematical integers.

use vstd::prelude::*;
use vstd::arithmetic::div_mod::{lemma_div_is_ordered, lemma_div_pos_is_pos};
use vstd::arithmetic::mul::lemma_mul_upper_bound;

verus! {

/// Raw representation of 1.0: the Q32.32 scale factor, 2^32.
pub const FX_ONE: i64 = 0x1_0000_0000;

/// Raw magnitude bound on a well-formed component (real value at most 64).
pub const FX_COMP_BOUND: i64 = 0x40_0000_0000;

/// Largest raw magnitude accepted by `fx_mul_exec` (2^44).
pub const FX_MUL_BOUND: i64 = 0x1000_0000_0000;

/// Integer division truncating toward zero (matching hardware semantics),
/// in terms of Verus's Euclidean `/`.
pub open spec fn tdiv(a: int, d: int) -> int {
    if a >= 0 {
        a / d
    } else {
        -((-a) / d)
    }
}

/// Product of two Q32.32 raw values, rescaled and truncated toward zero.
pub open spec fn fx_mul(a: int, b: int) -> int {
    tdiv(a * b, FX_ONE as int)
}

/// Truncating division shrinks magnitudes: `|a| <= m` gives `|a / d| <= m / d`.
pub proof fn lemma_tdiv_bound(a: int, d: int, m: int)
    requires
        d > 0,
        0 <= m,
        -m <= a <= m,
    ensures
        -(m / d) <= tdiv(a, d) <= m / d,
        tdiv(a, d) >= 0 || a < 0,
{
    if a >= 0 {
        lemma_div_pos_is_pos(a, d);
        lemma_div_is_ordered(a, m, d);
    } else {
        lemma_div_pos_is_pos(-a, d);
        lemma_div_is_ordered(-a, m, d);
    }
    lemma_div_pos_is_pos(m, d);
}

/// A fixed-point square is never negative.
pub proof fn lemma_fx_sq_nonneg(a: int)
    ensures
        fx_mul(a, a) >= 0,
{
    assert(a * a >= 0) by (nonlinear_arith);
    lemma_div_pos_is_pos(a * a, FX_ONE as int);
}

/// Magnitudes multiply: relates `|a| * |b|` to `a * b`.
proof fn lemma_abs_mul(ai: int, bi: int, ua: int, ub: int)
    by (nonlinear_arith)
    requires
        ua == if ai >= 0 { ai } else { -ai },
        ub == if bi >= 0 { bi } else { -bi },
    ensures
        ua * ub == if (ai >= 0) == (bi >= 0) { ai * bi } else { -(ai * bi) },
        ua * ub >= 0,
{
}

/// Multiply two Q32.32 fixed-point raw values, truncating toward zero.
pub fn fx_mul_exec(a: i64, b: i64) -> (r: i64)
    requires
        -FX_MUL_BOUND <= a <= FX_MUL_BOUND,
        -FX_MUL_BOUND <= b <= FX_MUL_BOUND,
    ensures
        r == fx_mul(a as int, b as int),
        -0x100_0000_0000_0000 <= r <= 0x100_0000_0000_0000,
{
    let neg = (a < 0) != (b < 0);
    let ua: u64 = if a < 0 {
        (-a) as u64
    } else {
        a as u64
    };
    let ub: u64 = if b < 0 {
        (-b) as u64
    } else {
        b as u64
    };
    proof {
        lemma_abs_mul(a as int, b as int, ua as int, ub as int);
        assert(0x1000_0000_0000int * 0x1000_0000_0000int == 0x100_0000_0000_0000_0000_0000int)
            by (nonlinear_arith);
        lemma_mul_upper_bound(
            ua as int,
            FX_MUL_BOUND as int,
            ub as int,
            FX_MUL_BOUND as int,
        );
    }
    let prod: u128 = (ua as u128) * (ub as u128);
    let q: u128 = prod / 0x1_0000_0000u128;
    proof {
        lemma_div_is_ordered(prod as int, 0x100_0000_0000_0000_0000_0000, FX_ONE as int);
        lemma_div_pos_is_pos(prod as int, FX_ONE as int);
        assert(0x100_0000_0000_0000_0000_0000int / 0x1_0000_0000int == 0x100_0000_0000_0000int);
    }
    let qi: i64 = q as i64;
    if neg {
        -qi
    } else {
        qi
    }
}

} // verus!
