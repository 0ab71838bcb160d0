//! Serialisation of a frame into the plain-text raster image format:
//! a three-line header ("P3", the resolution, the maximum channel value)
//! followed by one line per pixel, "r g b", in row-major order.  Everything
//! is built as ASCII bytes with exact contracts.

use vstd::prelude::*;
use crate::color::Rgb;
use crate::render::{pixel_spec, render_frame};
use crate::schedule::{fp_wf, FrameParams};

verus! {

/// Decimal digits of `n`, as ASCII bytes, most significant first.
pub open spec fn dec_bytes(n: nat) -> Seq<u8>
    decreases n,
{
    if n < 10 {
        seq![(48 + n) as u8]
    } else {
        dec_bytes(n / 10) + seq![(48 + n % 10) as u8]
    }
}

/// One pixel line: "r g b" and a newline.
pub open spec fn line_bytes(c: Rgb) -> Seq<u8> {
    dec_bytes(c.r as nat) + seq![32u8] + dec_bytes(c.g as nat) + seq![32u8] + dec_bytes(
        c.b as nat,
    ) + seq![10u8]
}

/// The three header lines: "P3", "<width> <height>", "255".
pub open spec fn header_bytes(w: nat, h: nat) -> Seq<u8> {
    seq![80u8, 51u8, 10u8] + dec_bytes(w) + seq![32u8] + dec_bytes(h) + seq![
        10u8,
        50u8,
        53u8,
        53u8,
        10u8,
    ]
}

/// All pixel lines, in sequence order.
pub open spec fn body_bytes(pix: Seq<Rgb>) -> Seq<u8>
    decreases pix.len(),
{
    if pix.len() == 0 {
        Seq::empty()
    } else {
        body_bytes(pix.drop_last()) + line_bytes(pix.last())
    }
}

/// A whole frame file: the header, then one line per pixel.
pub open spec fn ppm_bytes_spec(w: nat, h: nat, pix: Seq<Rgb>) -> Seq<u8> {
    header_bytes(w, h) + body_bytes(pix)
}

/// Append the decimal form of `n` to `out`.
fn push_dec(out: &mut Vec<u8>, n: usize)
    ensures
        final(out)@ == old(out)@ + dec_bytes(n as nat),
    decreases n,
{
    if n < 10 {
        out.push(48 + (n as u8));
    } else {
        push_dec(out, n / 10);
        out.push(48 + ((n % 10) as u8));
    }
    proof {
        assert(out@ =~= old(out)@ + dec_bytes(n as nat));
    }
}

/// Append one pixel line to `out`.
fn push_line(out: &mut Vec<u8>, c: Rgb)
    ensures
        final(out)@ == old(out)@ + line_bytes(c),
{
    push_dec(out, c.r as usize);
    out.push(32);
    push_dec(out, c.g as usize);
    out.push(32);
    push_dec(out, c.b as usize);
    out.push(10);
    proof {
        assert(out@ =~= old(out)@ + line_bytes(c));
    }
}

/// Serialise a pixel sequence at the given resolution into the bytes of the
/// image file.
pub fn ppm_bytes(width: usize, height: usize, pix: &Vec<Rgb>) -> (r: Vec<u8>)
    ensures
        r@ == ppm_bytes_spec(width as nat, height as nat, pix@),
{
    let mut out: Vec<u8> = Vec::new();
    out.push(80);
    out.push(51);
    out.push(10);
    push_dec(&mut out, width);
    out.push(32);
    push_dec(&mut out, height);
    out.push(10);
    out.push(50);
    out.push(53);
    out.push(53);
    out.push(10);
    proof {
        assert(out@ =~= header_bytes(width as nat, height as nat));
        assert(pix@.subrange(0, 0) =~= Seq::<Rgb>::empty());
        assert(out@ =~= header_bytes(width as nat, height as nat) + body_bytes(
            pix@.subrange(0, 0),
        ));
    }
    let mut i: usize = 0;
    while i < pix.len()
        invariant
            i <= pix.len(),
            out@ == header_bytes(width as nat, height as nat) + body_bytes(
                pix@.subrange(0, i as int),
            ),
        decreases pix.len() - i,
    {
        push_line(&mut out, pix[i]);
        proof {
            let pre = pix@.subrange(0, i as int);
            let post = pix@.subrange(0, i + 1);
            assert(post.drop_last() =~= pre);
            assert(post.last() == pix@[i as int]);
            assert(out@ =~= header_bytes(width as nat, height as nat) + body_bytes(post));
        }
        i = i + 1;
    }
    proof {
        assert(pix@.subrange(0, pix@.len() as int) =~= pix@);
    }
    out
}

/// Row-major pixel colours of a whole frame, as a sequence.
pub open spec fn frame_pixels_spec(fp: FrameParams) -> Seq<Rgb> {
    Seq::new((fp.vp.width * fp.vp.height) as nat, |i: int| pixel_spec(fp, i))
}

/// Render one frame and serialise it: the bytes of the frame's image file.
pub fn render_frame_bytes(fp: &FrameParams) -> (r: Vec<u8>)
    requires
        fp_wf(*fp),
    ensures
        r@ == ppm_bytes_spec(fp.vp.width as nat, fp.vp.height as nat, frame_pixels_spec(*fp)),
{
    let pix = render_frame(fp);
    proof {
        assert(pix@ =~= frame_pixels_spec(*fp));
    }
    ppm_bytes(fp.vp.width, fp.vp.height, &pix)
}

/// The frame index zero-padded to at least four digits.
pub open spec fn pad4_bytes(k: nat) -> Seq<u8> {
    if k < 10 {
        seq![48u8, 48u8, 48u8] + dec_bytes(k)
    } else if k < 100 {
        seq![48u8, 48u8] + dec_bytes(k)
    } else if k < 1000 {
        seq![48u8] + dec_bytes(k)
    } else {
        dec_bytes(k)
    }
}

/// File name of frame `k`: the fixed prefix "out/out", the zero-padded
/// frame index, and the ".ppm" extension.
pub open spec fn filename_bytes(k: nat) -> Seq<u8> {
    seq![111u8, 117u8, 116u8, 47u8, 111u8, 117u8, 116u8] + pad4_bytes(k) + seq![
        46u8,
        112u8,
        112u8,
        109u8,
    ]
}

/// Number of newline bytes in `s`.
pub open spec fn nl_count(s: Seq<u8>) -> int
    decreases s.len(),
{
    if s.len() == 0 {
        0
    } else {
        nl_count(s.drop_last()) + if s.last() == 10 {
            1int
        } else {
            0int
        }
    }
}

/// Newlines add up over concatenation.
proof fn lemma_nl_count_concat(a: Seq<u8>, b: Seq<u8>)
    ensures
        nl_count(a + b) == nl_count(a) + nl_count(b),
    decreases b.len(),
{
    if b.len() == 0 {
        assert(a + b =~= a);
    } else {
        assert((a + b).drop_last() =~= a + b.drop_last());
        lemma_nl_count_concat(a, b.drop_last());
    }
}

proof fn lemma_nl_count_single(x: u8)
    ensures
        nl_count(seq![x]) == if x == 10 {
            1int
        } else {
            0int
        },
{
    assert(seq![x].len() == 1);
    assert(seq![x].last() == x);
    assert(seq![x].drop_last() =~= Seq::<u8>::empty());
    assert(nl_count(Seq::<u8>::empty()) == 0);
}

/// Decimal digits never contain a newline.
proof fn lemma_dec_bytes_no_nl(n: nat)
    ensures
        nl_count(dec_bytes(n)) == 0,
    decreases n,
{
    if n < 10 {
        lemma_nl_count_single((48 + n) as u8);
    } else {
        lemma_dec_bytes_no_nl(n / 10);
        lemma_nl_count_single((48 + n % 10) as u8);
        lemma_nl_count_concat(dec_bytes(n / 10), seq![(48 + n % 10) as u8]);
    }
}

/// Each pixel line holds exactly one newline, at its end.
proof fn lemma_line_nl(c: Rgb)
    ensures
        nl_count(line_bytes(c)) == 1,
{
    let dr = dec_bytes(c.r as nat);
    let dg = dec_bytes(c.g as nat);
    let db = dec_bytes(c.b as nat);
    lemma_dec_bytes_no_nl(c.r as nat);
    lemma_dec_bytes_no_nl(c.g as nat);
    lemma_dec_bytes_no_nl(c.b as nat);
    lemma_nl_count_single(32u8);
    lemma_nl_count_single(10u8);
    lemma_nl_count_concat(dr, seq![32u8]);
    lemma_nl_count_concat(dr + seq![32u8], dg);
    lemma_nl_count_concat(dr + seq![32u8] + dg, seq![32u8]);
    lemma_nl_count_concat(dr + seq![32u8] + dg + seq![32u8], db);
    lemma_nl_count_concat(dr + seq![32u8] + dg + seq![32u8] + db, seq![10u8]);
}

/// The header holds exactly three newlines: it is exactly three lines.
proof fn lemma_header_nl(w: nat, h: nat)
    ensures
        nl_count(header_bytes(w, h)) == 3,
{
    let a = seq![80u8, 51u8, 10u8];
    let b = seq![10u8, 50u8, 53u8, 53u8, 10u8];
    lemma_nl_count_single(80u8);
    lemma_nl_count_single(51u8);
    lemma_nl_count_single(10u8);
    lemma_nl_count_single(50u8);
    lemma_nl_count_single(53u8);
    lemma_nl_count_single(32u8);
    assert(a =~= seq![80u8] + seq![51u8] + seq![10u8]);
    lemma_nl_count_concat(seq![80u8], seq![51u8]);
    lemma_nl_count_concat(seq![80u8] + seq![51u8], seq![10u8]);
    assert(b =~= seq![10u8] + seq![50u8] + seq![53u8] + seq![53u8] + seq![10u8]);
    lemma_nl_count_concat(seq![10u8], seq![50u8]);
    lemma_nl_count_concat(seq![10u8] + seq![50u8], seq![53u8]);
    lemma_nl_count_concat(seq![10u8] + seq![50u8] + seq![53u8], seq![53u8]);
    lemma_nl_count_concat(seq![10u8] + seq![50u8] + seq![53u8] + seq![53u8], seq![10u8]);
    lemma_dec_bytes_no_nl(w);
    lemma_dec_bytes_no_nl(h);
    lemma_nl_count_concat(a, dec_bytes(w));
    lemma_nl_count_concat(a + dec_bytes(w), seq![32u8]);
    lemma_nl_count_concat(a + dec_bytes(w) + seq![32u8], dec_bytes(h));
    lemma_nl_count_concat(a + dec_bytes(w) + seq![32u8] + dec_bytes(h), b);
}

/// The pixel lines hold exactly one newline per pixel.
proof fn lemma_body_nl(pix: Seq<Rgb>)
    ensures
        nl_count(body_bytes(pix)) == pix.len(),
    decreases pix.len(),
{
    if pix.len() > 0 {
        lemma_body_nl(pix.drop_last());
        lemma_line_nl(pix.last());
        lemma_nl_count_concat(body_bytes(pix.drop_last()), line_bytes(pix.last()));
    }
}

/// A serialised frame is a header of exactly three lines followed by exactly
/// one line per pixel: its newline count is 3 plus the pixel count.
pub proof fn lemma_ppm_line_count(w: nat, h: nat, pix: Seq<Rgb>)
    ensures
        nl_count(ppm_bytes_spec(w, h, pix)) == 3 + pix.len(),
{
    lemma_header_nl(w, h);
    lemma_body_nl(pix);
    lemma_nl_count_concat(header_bytes(w, h), body_bytes(pix));
}

/// Build the file name of frame `k` as ASCII bytes.
pub fn frame_filename(k: usize) -> (r: Vec<u8>)
    ensures
        r@ == filename_bytes(k as nat),
{
    let mut out: Vec<u8> = Vec::new();
    out.push(111);
    out.push(117);
    out.push(116);
    out.push(47);
    out.push(111);
    out.push(117);
    out.push(116);
    if k < 10 {
        out.push(48);
        out.push(48);
        out.push(48);
    } else if k < 100 {
        out.push(48);
        out.push(48);
    } else if k < 1000 {
        out.push(48);
    }
    push_dec(&mut out, k);
    out.push(46);
    out.push(112);
    out.push(112);
    out.push(109);
    proof {
        assert(out@ =~= filename_bytes(k as nat));
    }
    out
}

} // verus!
