//! The frame scheduler: per-frame iteration budget and shrinking viewport.
//!
//! Frame `k` (1-based) gets iteration budget `k` and a viewport centred on a
//! fixed, slightly asymmetric point, whose half-width is 1.75 times a shrink
//! factor that decays geometrically: factor `exp(-1/50)` per frame, held as
//! a Q0.64 fixed-point constant.  The schedule is a pure function of `k`.

use vstd::prelude::*;
use vstd::arithmetic::div_mod::{
    lemma_div_by_multiple, lemma_div_is_ordered, lemma_div_pos_is_pos,
};
use vstd::arithmetic::mul::{
    lemma_mul_inequality, lemma_mul_is_commutative, lemma_mul_nonnegative, lemma_mul_upper_bound,
};
use crate::viewport::{vp_wf, Viewport, VP_MAX_RES};

verus! {

/// Per-frame shrink factor exp(-1/50), as a raw Q0.64 value (scale 2^64).
pub const SHRINK_RAW: u64 = 18081474067879353234;

/// Horizontal centre of every viewport (raw Q32.32, about 0.1000001).
pub const CENTER_RE: i64 = 429497163;

/// Vertical centre of every viewport (raw Q32.32, about 0.0999990).
pub const CENTER_IM: i64 = 429492391;

/// Parameters of one frame: its iteration budget and its viewport.
#[derive(Clone, Copy, PartialEq, Eq, Structural, Debug)]
pub struct FrameParams {
    pub budget: usize,
    pub vp: Viewport,
}

/// Frame parameters invariant.
pub open spec fn fp_wf(fp: FrameParams) -> bool {
    &&& 1 <= fp.budget
    &&& vp_wf(fp.vp)
}

/// The raw Q0.64 shrink factor after `k` frames: the k-th power of
/// `SHRINK_RAW`, each step truncated to 64 fractional bits.
pub open spec fn shrink_pow(k: nat) -> int
    decreases k,
{
    if k == 0 {
        0x1_0000_0000_0000_0000
    } else {
        shrink_pow((k - 1) as nat) * (SHRINK_RAW as int) / 0x1_0000_0000_0000_0000
    }
}

/// The shrink factor always stays within [0, 1] (in raw Q0.64 terms).
pub proof fn lemma_shrink_pow_bounds(k: nat)
    ensures
        0 <= shrink_pow(k) <= 0x1_0000_0000_0000_0000,
    decreases k,
{
    if k > 0 {
        let prev = shrink_pow((k - 1) as nat);
        lemma_shrink_pow_bounds((k - 1) as nat);
        lemma_mul_nonnegative(prev, SHRINK_RAW as int);
        lemma_div_pos_is_pos(prev * (SHRINK_RAW as int), 0x1_0000_0000_0000_0000);
        lemma_mul_inequality(prev, 0x1_0000_0000_0000_0000, SHRINK_RAW as int);
        lemma_mul_is_commutative(0x1_0000_0000_0000_0000, SHRINK_RAW as int);
        lemma_div_is_ordered(
            prev * (SHRINK_RAW as int),
            (SHRINK_RAW as int) * 0x1_0000_0000_0000_0000,
            0x1_0000_0000_0000_0000,
        );
        lemma_div_by_multiple(SHRINK_RAW as int, 0x1_0000_0000_0000_0000);
    }
}

/// Half the viewport span of frame `k` (raw Q32.32): 1.75 times the shrink
/// factor, rescaled from Q0.64 to Q32.32 (7 / 4 / 2^32 = 7 / 2^34).
pub open spec fn half_span(k: nat) -> int {
    7 * shrink_pow(k) / 0x4_0000_0000
}

/// The half span is at most 1.75 (raw), and never negative.
pub proof fn lemma_half_span_bounds(k: nat)
    ensures
        0 <= half_span(k) <= 0x1_C000_0000,
{
    lemma_shrink_pow_bounds(k);
    lemma_div_pos_is_pos(7 * shrink_pow(k), 0x4_0000_0000);
    lemma_div_is_ordered(7 * shrink_pow(k), 0x7_0000_0000_0000_0000, 0x4_0000_0000);
    assert(0x7_0000_0000_0000_0000int / 0x4_0000_0000int == 0x1_C000_0000int);
}

/// The Frame Scheduler, mathematically: frame `k` has budget `k` and a
/// viewport of half-width `half_span(k)` around the fixed centre.
pub open spec fn schedule_spec(k: usize, width: usize, height: usize) -> FrameParams {
    let rel = half_span(k as nat);
    FrameParams {
        budget: k,
        vp: Viewport {
            re_min: (CENTER_RE - rel) as i64,
            re_max: (CENTER_RE + rel) as i64,
            im_min: (CENTER_IM - rel) as i64,
            im_max: (CENTER_IM + rel) as i64,
            width: width,
            height: height,
        },
    }
}

/// Compute the raw shrink factor of frame `k` by iterated fixed-point
/// multiplication.
fn shrink_factor(k: usize) -> (s: u64)
    requires
        1 <= k,
    ensures
        s as int == shrink_pow(k as nat),
{
    proof {
        lemma_div_by_multiple(SHRINK_RAW as int, 0x1_0000_0000_0000_0000);
        lemma_mul_is_commutative(SHRINK_RAW as int, 0x1_0000_0000_0000_0000);
        assert(shrink_pow(0) == 0x1_0000_0000_0000_0000);
        assert(shrink_pow(1) == 0x1_0000_0000_0000_0000int * (SHRINK_RAW as int)
            / 0x1_0000_0000_0000_0000);
    }
    let mut s: u64 = SHRINK_RAW;
    let mut j: usize = 1;
    while j < k
        invariant
            1 <= j <= k,
            s as int == shrink_pow(j as nat),
        decreases k - j,
    {
        proof {
            lemma_mul_upper_bound(
                s as int,
                0xFFFF_FFFF_FFFF_FFFF,
                SHRINK_RAW as int,
                0x1_0000_0000_0000_0000,
            );
            assert(0xFFFF_FFFF_FFFF_FFFFint * 0x1_0000_0000_0000_0000int
                == 0xFFFF_FFFF_FFFF_FFFF_0000_0000_0000_0000int) by (nonlinear_arith);
            lemma_mul_nonnegative(s as int, SHRINK_RAW as int);
            lemma_div_is_ordered(
                (s as int) * (SHRINK_RAW as int),
                0xFFFF_FFFF_FFFF_FFFF_0000_0000_0000_0000,
                0x1_0000_0000_0000_0000,
            );
            assert(0xFFFF_FFFF_FFFF_FFFF_0000_0000_0000_0000int / 0x1_0000_0000_0000_0000int
                == 0xFFFF_FFFF_FFFF_FFFFint);
            lemma_div_pos_is_pos((s as int) * (SHRINK_RAW as int), 0x1_0000_0000_0000_0000);
        }
        let wide: u128 = (s as u128) * (SHRINK_RAW as u128);
        let nxt: u128 = wide / 0x1_0000_0000_0000_0000u128;
        s = nxt as u64;
        j = j + 1;
    }
    s
}

/// The Frame Scheduler: budget and viewport of frame `k` at the given
/// resolution.  A pure function of its arguments: re-running it for the same
/// frame index always yields identical parameters.
pub fn frame_params(k: usize, width: usize, height: usize) -> (r: FrameParams)
    requires
        1 <= k,
        0 < width <= VP_MAX_RES,
        0 < height <= VP_MAX_RES,
    ensures
        r == schedule_spec(k, width, height),
        fp_wf(r),
        r.budget == k,
{
    proof {
        lemma_half_span_bounds(k as nat);
    }
    let s = shrink_factor(k);
    let wide: u128 = (7u128 * (s as u128)) / 0x4_0000_0000u128;
    let rel: i64 = wide as i64;
    FrameParams {
        budget: k,
        vp: Viewport {
            re_min: CENTER_RE - rel,
            re_max: CENTER_RE + rel,
            im_min: CENTER_IM - rel,
            im_max: CENTER_IM + rel,
            width: width,
            height: height,
        },
    }
}

} // verus!
