//! The viewport scaler: affine map from pixel coordinates to the complex
//! plane.

use vstd::prelude::*;
use vstd::arithmetic::div_mod::{
    lemma_div_by_multiple, lemma_div_is_ordered, lemma_div_pos_is_pos,
};
use vstd::arithmetic::mul::{
    lemma_mul_inequality, lemma_mul_is_commutative, lemma_mul_nonnegative, lemma_mul_upper_bound,
};
use crate::complex::{cpx_wf, Cpx};

verus! {

/// Raw magnitude bound on viewport bounds (real values at most 32).
pub const VP_BOUND: i64 = 0x20_0000_0000;

/// Largest pixel resolution accepted on either axis.
pub const VP_MAX_RES: usize = 0x8000;

/// A rectangular region of the complex plane together with the pixel
/// resolution it is mapped onto.  Bounds are raw Q32.32 values.
#[derive(Clone, Copy, PartialEq, Eq, Structural, Debug)]
pub struct Viewport {
    pub re_min: i64,
    pub re_max: i64,
    pub im_min: i64,
    pub im_max: i64,
    pub width: usize,
    pub height: usize,
}

/// Viewport invariant: ordered bounds of moderate size, positive resolution.
pub open spec fn vp_wf(v: Viewport) -> bool {
    &&& v.re_min <= v.re_max
    &&& v.im_min <= v.im_max
    &&& -VP_BOUND <= v.re_min
    &&& v.re_max <= VP_BOUND
    &&& -VP_BOUND <= v.im_min
    &&& v.im_max <= VP_BOUND
    &&& 0 < v.width <= VP_MAX_RES
    &&& 0 < v.height <= VP_MAX_RES
}

/// Real part of the scaled point: re_min + x * (re_max - re_min) / width.
pub open spec fn scale_re(v: Viewport, x: int) -> int {
    v.re_min + (v.re_max - v.re_min) * x / (v.width as int)
}

/// Imaginary part of the scaled point: im_min + y * (im_max - im_min) / height.
pub open spec fn scale_im(v: Viewport, y: int) -> int {
    v.im_min + (v.im_max - v.im_min) * y / (v.height as int)
}

/// The scaled point as a complex value.
pub open spec fn scale_spec(v: Viewport, x: int, y: int) -> Cpx {
    Cpx { re: scale_re(v, x) as i64, im: scale_im(v, y) as i64 }
}

/// Every pixel of the grid is scaled to a point inside the viewport bounds.
pub proof fn lemma_scale_in_bounds(v: Viewport, x: int, y: int)
    requires
        vp_wf(v),
        0 <= x < v.width,
        0 <= y < v.height,
    ensures
        v.re_min <= scale_re(v, x) <= v.re_max,
        v.im_min <= scale_im(v, y) <= v.im_max,
{
    let sre = v.re_max - v.re_min;
    let sim = v.im_max - v.im_min;
    let w = v.width as int;
    let h = v.height as int;
    lemma_mul_nonnegative(sre, x);
    lemma_div_pos_is_pos(sre * x, w);
    lemma_mul_inequality(x, w, sre);
    lemma_mul_is_commutative(x, sre);
    lemma_mul_is_commutative(w, sre);
    lemma_div_is_ordered(sre * x, sre * w, w);
    lemma_div_by_multiple(sre, w);
    lemma_mul_nonnegative(sim, y);
    lemma_div_pos_is_pos(sim * y, h);
    lemma_mul_inequality(y, h, sim);
    lemma_mul_is_commutative(y, sim);
    lemma_mul_is_commutative(h, sim);
    lemma_div_is_ordered(sim * y, sim * h, h);
    lemma_div_by_multiple(sim, h);
}

/// The Viewport Scaler: map the pixel coordinate (x, y) to its point of the
/// complex plane by the affine map of `scale_re` / `scale_im`.
pub fn scale_pixel(v: &Viewport, x: usize, y: usize) -> (r: Cpx)
    requires
        vp_wf(*v),
        x < v.width,
        y < v.height,
    ensures
        r == scale_spec(*v, x as int, y as int),
        v.re_min <= r.re <= v.re_max,
        v.im_min <= r.im <= v.im_max,
        cpx_wf(r),
{
    proof {
        lemma_scale_in_bounds(*v, x as int, y as int);
        lemma_mul_upper_bound(
            (v.re_max - v.re_min) as int,
            0x40_0000_0000,
            x as int,
            0x8000,
        );
        lemma_mul_upper_bound(
            (v.im_max - v.im_min) as int,
            0x40_0000_0000,
            y as int,
            0x8000,
        );
        lemma_mul_nonnegative((v.re_max - v.re_min) as int, x as int);
        lemma_mul_nonnegative((v.im_max - v.im_min) as int, y as int);
    }
    let span_re: i64 = v.re_max - v.re_min;
    let span_im: i64 = v.im_max - v.im_min;
    let qre: u64 = ((span_re as u64) * (x as u64)) / (v.width as u64);
    let qim: u64 = ((span_im as u64) * (y as u64)) / (v.height as u64);
    Cpx { re: v.re_min + (qre as i64), im: v.im_min + (qim as i64) }
}

} // verus!
