//! The frame renderer: every pixel of a frame, in row-major order.
//!
//! Each pixel is independent of every other: its colour is a pure function
//! of the frame parameters and its own index (scaled point, escape time,
//! colour).  The parallel renderer hands the pixel function to a data-
//! parallel map and must produce exactly the same row-major sequence as the
//! sequential loop.

use vstd::prelude::*;
use vstd::arithmetic::div_mod::lemma_multiply_divide_lt;
use vstd::arithmetic::mul::lemma_mul_upper_bound;
use rayon::iter::{IntoParallelIterator, ParallelIterator};
use crate::color::{escape_color, map_color, Rgb};
use crate::complex::Cpx;
use crate::escape::{
    escape_time, escaped_at, is_first_escape, lemma_first_escape_unique, lemma_quad_env, QuadMap,
};
use crate::schedule::{fp_wf, FrameParams};
use crate::viewport::scale_pixel;
use crate::viewport::scale_spec;

verus! {

/// Real part of the additive constant of the reference map (-0.8, raw Q32.32).
pub const MAP_C_RE: i64 = -3435973837;

/// Imaginary part of the additive constant of the reference map (0.156, raw).
pub const MAP_C_IM: i64 = 670014898;

/// Squared escape radius (9.0 raw: radius 3.0, compared squared so that no
/// square root is ever taken).
pub const RADIUS_SQR: i64 = 38654705664;

/// The reference quadratic Julia map p^2 + (-0.8 + 0.156i).
pub open spec fn ref_map() -> QuadMap {
    QuadMap { c: Cpx { re: MAP_C_RE, im: MAP_C_IM } }
}

/// Colour of the pixel with row-major index `idx`: scale the coordinate into
/// the viewport, take the first escape index under the reference map within
/// the frame's budget, and map it to a colour — black when the point never
/// escapes within the budget.
pub open spec fn pixel_spec(fp: FrameParams, idx: int) -> Rgb {
    let x = idx % (fp.vp.width as int);
    let y = idx / (fp.vp.width as int);
    let p0 = scale_spec(fp.vp, x, y);
    if exists|i: int| is_first_escape(ref_map(), p0, RADIUS_SQR as int, fp.budget as int, i) {
        escape_color(
            choose|i: int| is_first_escape(ref_map(), p0, RADIUS_SQR as int, fp.budget as int, i),
            fp.budget as int,
        )
    } else {
        Rgb { r: 0, g: 0, b: 0 }
    }
}

/// Compute one pixel of a frame.
pub fn pixel_color(fp: &FrameParams, idx: usize) -> (c: Rgb)
    requires
        fp_wf(*fp),
        idx < fp.vp.width * fp.vp.height,
    ensures
        c == pixel_spec(*fp, idx as int),
{
    let w = fp.vp.width;
    let x = idx % w;
    let y = idx / w;
    proof {
        lemma_multiply_divide_lt(idx as int, w as int, fp.vp.height as int);
    }
    let p0 = scale_pixel(&fp.vp, x, y);
    let m = QuadMap { c: Cpx { re: MAP_C_RE, im: MAP_C_IM } };
    proof {
        lemma_quad_env(m, RADIUS_SQR);
    }
    let e = escape_time(&m, p0, fp.budget, RADIUS_SQR);
    proof {
        assert(m == ref_map());
        let bgt = fp.budget as int;
        match e {
            Some(i) => {
                assert(is_first_escape(ref_map(), p0, RADIUS_SQR as int, bgt, i as int));
                let k = choose|j: int|
                    is_first_escape(ref_map(), p0, RADIUS_SQR as int, bgt, j);
                lemma_first_escape_unique(ref_map(), p0, RADIUS_SQR as int, bgt, i as int, k);
            },
            None => {
                if exists|j: int| is_first_escape(ref_map(), p0, RADIUS_SQR as int, bgt, j) {
                    let j = choose|j: int|
                        is_first_escape(ref_map(), p0, RADIUS_SQR as int, bgt, j);
                    assert(is_first_escape(ref_map(), p0, RADIUS_SQR as int, bgt, j));
                    assert(!escaped_at(ref_map(), p0, RADIUS_SQR as int, j as nat));
                }
            },
        }
    }
    map_color(e, fp.budget)
}

/// The pixel grid always fits a `usize` (resolutions are capped at 2^15).
pub proof fn lemma_grid_fits(fp: FrameParams)
    requires
        fp_wf(fp),
    ensures
        fp.vp.width * fp.vp.height <= 0x4000_0000,
{
    lemma_mul_upper_bound(fp.vp.width as int, 0x8000, fp.vp.height as int, 0x8000);
    assert(0x8000int * 0x8000int == 0x4000_0000int) by (nonlinear_arith);
}

/// Render a frame pixel by pixel, sequentially.
pub fn render_frame_seq(fp: &FrameParams) -> (r: Vec<Rgb>)
    requires
        fp_wf(*fp),
    ensures
        r@.len() == fp.vp.width * fp.vp.height,
        forall|i: int| 0 <= i < r@.len() ==> r@[i] == pixel_spec(*fp, i),
{
    proof {
        lemma_grid_fits(*fp);
    }
    let n = fp.vp.width * fp.vp.height;
    let mut out: Vec<Rgb> = Vec::new();
    let mut idx: usize = 0;
    while idx < n
        invariant
            idx <= n,
            n == fp.vp.width * fp.vp.height,
            fp_wf(*fp),
            out@.len() == idx,
            forall|i: int| 0 <= i < idx ==> out@[i] == pixel_spec(*fp, i),
        decreases n - idx,
    {
        let c = pixel_color(fp, idx);
        out.push(c);
        idx = idx + 1;
    }
    out
}

/// Relies on rayon: a parallel iterator over a range is indexed, `map` keeps
/// the index-to-position correspondence, and `collect` into a `Vec` places
/// each mapped value at the position of its input index, whatever order the
/// worker threads ran in.  The closure only calls the verified `pixel_color`.
#[verifier::external_body]
fn par_pixel_colors(fp: &FrameParams, n: usize) -> (r: Vec<Rgb>)
    requires
        fp_wf(*fp),
        n == fp.vp.width * fp.vp.height,
    ensures
        r@.len() == n,
        forall|i: int| 0 <= i < r@.len() ==> r@[i] == pixel_spec(*fp, i),
{
    let params: FrameParams = *fp;
    (0..n).into_par_iter().map(|idx| pixel_color(&params, idx)).collect()
}

/// The Parallel Frame Renderer: the colours of every pixel of the frame, in
/// row-major order (y outer, x inner), computed data-parallel.
pub fn render_frame(fp: &FrameParams) -> (r: Vec<Rgb>)
    requires
        fp_wf(*fp),
    ensures
        r@.len() == fp.vp.width * fp.vp.height,
        forall|i: int| 0 <= i < r@.len() ==> r@[i] == pixel_spec(*fp, i),
{
    proof {
        lemma_grid_fits(*fp);
    }
    let n = fp.vp.width * fp.vp.height;
    par_pixel_colors(fp, n)
}

/// Rendering is deterministic: any two pixel sequences that meet the
/// renderer's contract for the same frame — sequential, parallel, or with
/// different worker counts — are equal.
pub proof fn lemma_render_deterministic(fp: FrameParams, a: Seq<Rgb>, b: Seq<Rgb>)
    requires
        a.len() == fp.vp.width * fp.vp.height,
        b.len() == fp.vp.width * fp.vp.height,
        forall|i: int| 0 <= i < a.len() ==> a[i] == pixel_spec(fp, i),
        forall|i: int| 0 <= i < b.len() ==> b[i] == pixel_spec(fp, i),
    ensures
        a == b,
{
    assert(a =~= b);
}

} // verus!
