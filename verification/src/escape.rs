//! The escape-time evaluator, generic over the iteration map.

use vstd::prelude::*;
use vstd::arithmetic::div_mod::{lemma_div_by_multiple, lemma_fundamental_div_mod};
use crate::complex::{cpx_wf, norm_sqr, norm_sqr_spec, Cpx};
use crate::fixed::{fx_mul, fx_mul_exec, lemma_fx_sq_nonneg, lemma_tdiv_bound, FX_ONE};

verus! {

/// An iteration map of the complex plane.  `map_spec` is the mathematical
/// meaning of one application; `ok` delimits the points the executable step
/// accepts (so that its arithmetic stays in range).
pub trait IterationMap: Sized {
    /// Points on which the map may be applied.
    spec fn ok(&self, p: Cpx) -> bool;

    /// Mathematical meaning of one application of the map.
    spec fn map_spec(&self, p: Cpx) -> Cpx;

    /// Apply the map once.
    fn apply(&self, p: Cpx) -> (r: Cpx)
        requires
            self.ok(p),
        ensures
            r == self.map_spec(p),
    ;
}

/// The n-fold application of the map to `start`.
pub open spec fn orbit<M: IterationMap>(m: M, start: Cpx, n: nat) -> Cpx
    decreases n,
{
    if n == 0 {
        start
    } else {
        m.map_spec(orbit(m, start, (n - 1) as nat))
    }
}

/// The orbit point of index `i` lies outside the escape radius.
pub open spec fn escaped_at<M: IterationMap>(m: M, start: Cpx, radius_sqr: int, i: nat) -> bool {
    norm_sqr_spec(orbit(m, start, i)) > radius_sqr
}

/// `i` is the first index below `budget` whose orbit point escapes.
pub open spec fn is_first_escape<M: IterationMap>(
    m: M,
    start: Cpx,
    radius_sqr: int,
    budget: int,
    i: int,
) -> bool {
    &&& 0 <= i < budget
    &&& escaped_at(m, start, radius_sqr, i as nat)
    &&& forall|j: nat| j < i ==> !escaped_at(m, start, radius_sqr, j)
}

/// At most one index is the first escape.
pub proof fn lemma_first_escape_unique<M: IterationMap>(
    m: M,
    start: Cpx,
    radius_sqr: int,
    budget: int,
    i: int,
    k: int,
)
    requires
        is_first_escape(m, start, radius_sqr, budget, i),
        is_first_escape(m, start, radius_sqr, budget, k),
    ensures
        i == k,
{
    if i < k {
        assert(!escaped_at(m, start, radius_sqr, i as nat));
    }
    if k < i {
        assert(!escaped_at(m, start, radius_sqr, k as nat));
    }
}

/// A start point already outside the radius escapes at index 0, whatever
/// the (positive) budget: index 0 is its first escape, so the evaluator is
/// bound to report it.
pub proof fn lemma_immediate_escape<M: IterationMap>(
    m: M,
    start: Cpx,
    radius_sqr: int,
    budget: int,
)
    requires
        1 <= budget,
        norm_sqr_spec(start) > radius_sqr,
    ensures
        is_first_escape(m, start, radius_sqr, budget, 0),
{
    assert(orbit(m, start, 0) == start);
}

/// The escape-time evaluator: starting from `start`, check the squared norm
/// against `radius_sqr` before each application of the map, and apply the map
/// at most `budget` times.  Returns the first index whose orbit point has
/// escaped, or `None` when the whole budget keeps the point bounded.
pub fn escape_time<M: IterationMap>(
    m: &M,
    start: Cpx,
    budget: usize,
    radius_sqr: i64,
) -> (r: Option<usize>)
    requires
        cpx_wf(start),
        forall|p: Cpx|
            cpx_wf(p) && norm_sqr_spec(p) <= radius_sqr ==> #[trigger] m.ok(p) && cpx_wf(
                m.map_spec(p),
            ),
    ensures
        match r {
            Some(i) => is_first_escape(*m, start, radius_sqr as int, budget as int, i as int),
            None => forall|j: nat| j < budget ==> !escaped_at(*m, start, radius_sqr as int, j),
        },
{
    let mut p = start;
    let mut i: usize = 0;
    while i < budget
        invariant
            i <= budget,
            p == orbit(*m, start, i as nat),
            cpx_wf(p),
            forall|j: nat| j < i ==> !escaped_at(*m, start, radius_sqr as int, j),
            forall|q: Cpx|
                cpx_wf(q) && norm_sqr_spec(q) <= radius_sqr ==> #[trigger] m.ok(q) && cpx_wf(
                    m.map_spec(q),
                ),
        decreases budget - i,
    {
        let ns = norm_sqr(&p);
        if ns > radius_sqr {
            return Some(i);
        }
        p = m.apply(p);
        proof {
            assert(orbit(*m, start, (i + 1) as nat) == m.map_spec(orbit(*m, start, i as nat)));
        }
        i = i + 1;
    }
    None
}

/// The identity map: orbits never move.  The degenerate witness of the
/// evaluator's contract — a start point inside the radius never escapes,
/// whatever the budget.
#[derive(Clone, Copy, PartialEq, Eq, Structural, Debug)]
pub struct IdMap {
}

impl IterationMap for IdMap {
    open spec fn ok(&self, p: Cpx) -> bool {
        true
    }

    open spec fn map_spec(&self, p: Cpx) -> Cpx {
        p
    }

    fn apply(&self, p: Cpx) -> (r: Cpx) {
        p
    }
}

/// Every orbit point of the identity map is the start point.
pub proof fn lemma_id_orbit(m: IdMap, start: Cpx, n: nat)
    ensures
        orbit(m, start, n) == start,
    decreases n,
{
    if n > 0 {
        lemma_id_orbit(m, start, (n - 1) as nat);
    }
}

/// Under the identity map a start point inside the radius never escapes:
/// no orbit index is ever an escape, so the evaluator is bound to report
/// "did not escape" whatever the budget.
pub proof fn lemma_id_never_escapes(m: IdMap, start: Cpx, radius_sqr: int, j: nat)
    requires
        norm_sqr_spec(start) <= radius_sqr,
    ensures
        !escaped_at(m, start, radius_sqr, j),
{
    lemma_id_orbit(m, start, j);
}

/// Raw magnitude bound on the additive constant of the quadratic map
/// (|components| at most 4).
pub const QUAD_C_BOUND: i64 = 0x4_0000_0000;

/// Largest squared norm (16.0, raw) on which the quadratic map is stepped.
pub const QUAD_NORM_BOUND: i64 = 0x10_0000_0000;

/// The quadratic Julia map `p^2 + c`.
#[derive(Clone, Copy, PartialEq, Eq, Structural, Debug)]
pub struct QuadMap {
    pub c: Cpx,
}

/// The additive constant stays small.
pub open spec fn quad_c_wf(m: QuadMap) -> bool {
    &&& -QUAD_C_BOUND <= m.c.re <= QUAD_C_BOUND
    &&& -QUAD_C_BOUND <= m.c.im <= QUAD_C_BOUND
}

impl IterationMap for QuadMap {
    open spec fn ok(&self, p: Cpx) -> bool {
        &&& cpx_wf(p)
        &&& norm_sqr_spec(p) <= QUAD_NORM_BOUND as int
        &&& quad_c_wf(*self)
    }

    open spec fn map_spec(&self, p: Cpx) -> Cpx {
        Cpx {
            re: (fx_mul(p.re as int, p.re as int) - fx_mul(p.im as int, p.im as int)
                + self.c.re) as i64,
            im: (2 * fx_mul(p.re as int, p.im as int) + self.c.im) as i64,
        }
    }

    fn apply(&self, p: Cpx) -> (r: Cpx) {
        let rr = fx_mul_exec(p.re, p.re);
        let ii = fx_mul_exec(p.im, p.im);
        let ri = fx_mul_exec(p.re, p.im);
        Cpx { re: rr - ii + self.c.re, im: ri + ri + self.c.im }
    }
}

/// Stepping the quadratic map from inside the norm bound lands on a
/// well-formed point.
proof fn lemma_quad_step_wf(m: QuadMap, p: Cpx)
    requires
        quad_c_wf(m),
        cpx_wf(p),
        norm_sqr_spec(p) <= QUAD_NORM_BOUND as int,
    ensures
        cpx_wf(m.map_spec(p)),
{
    let a = p.re as int;
    let b = p.im as int;
    let rr = fx_mul(a, a);
    let ii = fx_mul(b, b);
    let ri = fx_mul(a, b);
    lemma_fx_sq_nonneg(a);
    lemma_fx_sq_nonneg(b);
    assert(a * a >= 0) by (nonlinear_arith);
    assert(b * b >= 0) by (nonlinear_arith);
    // rr and ii are each at most the squared norm, hence at most the bound.
    // Recover bounds on the exact squares from the truncated ones.
    lemma_fundamental_div_mod(a * a, FX_ONE as int);
    lemma_fundamental_div_mod(b * b, FX_ONE as int);
    assert(a * a < (rr + 1) * (FX_ONE as int)) by (nonlinear_arith)
        requires
            a * a == (FX_ONE as int) * rr + (a * a) % (FX_ONE as int),
            0 <= (a * a) % (FX_ONE as int) < (FX_ONE as int),
    ;
    assert(b * b < (ii + 1) * (FX_ONE as int)) by (nonlinear_arith)
        requires
            b * b == (FX_ONE as int) * ii + (b * b) % (FX_ONE as int),
            0 <= (b * b) % (FX_ONE as int) < (FX_ONE as int),
    ;
    // |2ab| <= a^2 + b^2 (from (a - b)^2 >= 0 and (a + b)^2 >= 0).
    assert(-(a * a + b * b) <= 2 * (a * b) <= a * a + b * b) by (nonlinear_arith);
    assert((rr + ii + 2) * (FX_ONE as int) == (rr + 1) * (FX_ONE as int) + (ii + 1) * (
    FX_ONE as int)) by (nonlinear_arith);
    // So |a*b| is bounded by (bound + 2) * 2^32 / 2, and the truncated
    // product by roughly the norm bound itself.
    lemma_tdiv_bound(a * b, FX_ONE as int, (QUAD_NORM_BOUND as int + 2) * (FX_ONE as int));
    lemma_div_by_multiple(QUAD_NORM_BOUND as int + 2, FX_ONE as int);
}

/// For the quadratic map, every point inside the escape radius may be
/// stepped, and the step lands on a well-formed point: the environment the
/// escape-time evaluator asks of its map.
pub proof fn lemma_quad_env(m: QuadMap, radius_sqr: i64)
    requires
        quad_c_wf(m),
        0 <= radius_sqr <= QUAD_NORM_BOUND,
    ensures
        forall|p: Cpx|
            cpx_wf(p) && norm_sqr_spec(p) <= radius_sqr ==> #[trigger] m.ok(p) && cpx_wf(
                m.map_spec(p),
            ),
{
    assert forall|p: Cpx| cpx_wf(p) && norm_sqr_spec(p) <= radius_sqr implies #[trigger] m.ok(p)
        && cpx_wf(m.map_spec(p)) by {
        lemma_quad_step_wf(m, p);
    }
}

} // verus!
