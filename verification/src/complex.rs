//! Complex points with Q32.32 fixed-point components.

use vstd::prelude::*;
use crate::fixed::{fx_mul, fx_mul_exec, lemma_fx_sq_nonneg, FX_COMP_BOUND};

verus! {

/// A point of the complex plane; both components are raw Q32.32 values.
#[derive(Clone, Copy, PartialEq, Eq, Structural, Debug)]
pub struct Cpx {
    pub re: i64,
    pub im: i64,
}

/// Well-formed point: components stay small enough (|value| at most 64)
/// that squared norms and map steps cannot overflow.
pub open spec fn cpx_wf(p: Cpx) -> bool {
    &&& -FX_COMP_BOUND <= p.re <= FX_COMP_BOUND
    &&& -FX_COMP_BOUND <= p.im <= FX_COMP_BOUND
}

/// Squared norm |p|^2 = re^2 + im^2 as a raw Q32.32 value.
pub open spec fn norm_sqr_spec(p: Cpx) -> int {
    fx_mul(p.re as int, p.re as int) + fx_mul(p.im as int, p.im as int)
}

/// Compute the squared norm of a point (no square root is ever taken).
pub fn norm_sqr(p: &Cpx) -> (r: i64)
    requires
        cpx_wf(*p),
    ensures
        r == norm_sqr_spec(*p),
        r >= 0,
{
    proof {
        lemma_fx_sq_nonneg(p.re as int);
        lemma_fx_sq_nonneg(p.im as int);
    }
    let rr = fx_mul_exec(p.re, p.re);
    let ii = fx_mul_exec(p.im, p.im);
    rr + ii
}

} // verus!
