use julia_render::color::{map_color, Rgb};
use julia_render::complex::Cpx;
use julia_render::escape::{escape_time, IdMap, QuadMap};
use julia_render::ppm::{frame_filename, ppm_bytes, render_frame_bytes};
use julia_render::render::{
    pixel_color, render_frame, render_frame_seq, MAP_C_IM, MAP_C_RE, RADIUS_SQR,
};
use julia_render::schedule::{frame_params, FrameParams};
use julia_render::viewport::{scale_pixel, Viewport};

fn ref_map() -> QuadMap {
    QuadMap { c: Cpx { re: MAP_C_RE, im: MAP_C_IM } }
}

fn rgb(r: u8, g: u8, b: u8) -> Rgb {
    Rgb { r, g, b }
}

/// A 4x4 viewport spanning [-4, 4] on both axes: far enough out that some
/// pixels escape immediately, some after one step, and the centre never.
fn wide_frame(budget: usize) -> FrameParams {
    let four: i64 = 4 << 32;
    FrameParams {
        budget,
        vp: Viewport {
            re_min: -four,
            re_max: four,
            im_min: -four,
            im_max: four,
            width: 4,
            height: 4,
        },
    }
}

#[test]
fn escape_immediate_when_start_outside_radius() {
    // |p|^2 = 16 > 9: the evaluator reports index 0, whatever the budget.
    let p = Cpx { re: 4 << 32, im: 0 };
    assert_eq!(escape_time(&ref_map(), p, 1, RADIUS_SQR), Some(0));
    assert_eq!(escape_time(&ref_map(), p, 5, RADIUS_SQR), Some(0));
    assert_eq!(escape_time(&ref_map(), p, 2000, RADIUS_SQR), Some(0));
}

#[test]
fn escape_none_when_bounded() {
    // The orbit of the origin stays inside the radius for these budgets.
    let origin = Cpx { re: 0, im: 0 };
    assert_eq!(escape_time(&ref_map(), origin, 1, RADIUS_SQR), None);
    assert_eq!(escape_time(&ref_map(), origin, 3, RADIUS_SQR), None);
    assert_eq!(escape_time(&ref_map(), origin, 50, RADIUS_SQR), None);
}

#[test]
fn identity_map_from_origin_never_escapes() {
    // Under the identity map a point inside the radius never leaves it:
    // "did not escape" for every budget.
    let origin = Cpx { re: 0, im: 0 };
    assert_eq!(escape_time(&IdMap {}, origin, 1, RADIUS_SQR), None);
    assert_eq!(escape_time(&IdMap {}, origin, 100, RADIUS_SQR), None);
    // And one outside the radius still escapes at index 0.
    let far = Cpx { re: 4 << 32, im: 0 };
    assert_eq!(escape_time(&IdMap {}, far, 7, RADIUS_SQR), Some(0));
}

#[test]
fn color_mapper_sentinel_and_corners() {
    // "Did not escape" is black, whatever the budget.
    assert_eq!(map_color(None, 1), rgb(0, 0, 0));
    assert_eq!(map_color(None, 5), rgb(0, 0, 0));
    assert_eq!(map_color(None, 2000), rgb(0, 0, 0));
    // Escape at time 0: hue -180 degrees, i.e. cyan.
    assert_eq!(map_color(Some(0), 7), rgb(0, 255, 255));
    assert_eq!(map_color(Some(0), 1), rgb(0, 255, 255));
    // Halfway through the budget: hue 0 degrees, i.e. red.
    assert_eq!(map_color(Some(1), 2), rgb(255, 0, 0));
    // hue 90 degrees: chartreuse, the falling channel truncated to 127.
    assert_eq!(map_color(Some(3), 4), rgb(127, 255, 0));
    // Near the top of the sweep, just short of +180 degrees.
    assert_eq!(map_color(Some(6), 7), rgb(0, 255, 36));
}

#[test]
fn scaler_hits_viewport_corners() {
    // [-1.65, 1.85] x [-1.65, 1.85] at 4x4 (raw Q32.32 bounds).
    let vp = Viewport {
        re_min: -7086696038,
        re_max: 7945689497,
        im_min: -7086696038,
        im_max: 7945689497,
        width: 4,
        height: 4,
    };
    let p00 = scale_pixel(&vp, 0, 0);
    assert_eq!(p00.re, -7086696038);
    assert_eq!(p00.im, -7086696038);
    let p33 = scale_pixel(&vp, 3, 3);
    assert_eq!(p33.re, 4187593113);
    assert_eq!(p33.im, 4187593113);
    // All outputs stay within the bounds.
    for y in 0..4 {
        for x in 0..4 {
            let p = scale_pixel(&vp, x, y);
            assert!(vp.re_min <= p.re && p.re <= vp.re_max);
            assert!(vp.im_min <= p.im && p.im <= vp.im_max);
        }
    }
}

#[test]
fn first_pixel_of_tight_frame_is_black() {
    // Pixel (0, 0) of the [-1.65, 1.85] frame maps to (-1.65, -1.65);
    // |p|^2 = 5.445 < 9, so budget 1 runs out without an escape: black.
    let fp = FrameParams {
        budget: 1,
        vp: Viewport {
            re_min: -7086696038,
            re_max: 7945689497,
            im_min: -7086696038,
            im_max: 7945689497,
            width: 4,
            height: 4,
        },
    };
    assert_eq!(pixel_color(&fp, 0), rgb(0, 0, 0));
}

#[test]
fn schedule_is_pure_and_budget_matches_index() {
    // Bit-identical parameters on every re-run of the same frame index.
    for k in [1usize, 2, 17, 500] {
        let a = frame_params(k, 2000, 2000);
        let b = frame_params(k, 2000, 2000);
        assert_eq!(a, b);
        assert_eq!(a.budget, k);
        assert!(a.vp.re_min <= a.vp.re_max);
        assert!(a.vp.im_min <= a.vp.im_max);
    }
    // Exact bounds of the first two frames.
    let f1 = frame_params(1, 2000, 2000);
    assert_eq!(f1.vp.re_min, -6937865016);
    assert_eq!(f1.vp.re_max, 7796859342);
    assert_eq!(f1.vp.im_min, -6937869788);
    assert_eq!(f1.vp.im_max, 7796854570);
    let f2 = frame_params(2, 2000, 2000);
    assert_eq!(f2.vp.re_min, -6791981471);
    assert_eq!(f2.vp.re_max, 7650975797);
}

#[test]
fn late_frame_keeps_budget_and_collapses_cleanly() {
    // Frame 2000 has iteration budget exactly 2000; its viewport has
    // collapsed to the centre point, and nothing divides by zero.
    let fp = frame_params(2000, 4, 4);
    assert_eq!(fp.budget, 2000);
    assert_eq!(fp.vp.re_min, fp.vp.re_max);
    assert_eq!(fp.vp.im_min, fp.vp.im_max);
    assert_eq!(fp.vp.re_min, 429497163);
    assert_eq!(fp.vp.im_min, 429492391);
    let pix = render_frame(&fp);
    assert_eq!(pix.len(), 16);
}

#[test]
fn renderer_matches_expected_pixels() {
    let fp = wide_frame(3);
    let pix = render_frame(&fp);
    let expected = vec![
        rgb(0, 255, 255),
        rgb(0, 255, 255),
        rgb(0, 255, 255),
        rgb(0, 255, 255),
        rgb(0, 255, 255),
        rgb(255, 0, 255),
        rgb(255, 0, 255),
        rgb(255, 0, 255),
        rgb(0, 255, 255),
        rgb(255, 0, 255),
        rgb(0, 0, 0),
        rgb(255, 0, 255),
        rgb(0, 255, 255),
        rgb(255, 0, 255),
        rgb(255, 0, 255),
        rgb(255, 0, 255),
    ];
    assert_eq!(pix, expected);
}

#[test]
fn renderer_is_deterministic_and_order_independent() {
    // Parallel and sequential rendering agree, and re-rendering the same
    // frame gives byte-identical pixels.
    let fp = wide_frame(3);
    let par1 = render_frame(&fp);
    let par2 = render_frame(&fp);
    let seq = render_frame_seq(&fp);
    assert_eq!(par1, par2);
    assert_eq!(par1, seq);
}

#[test]
fn ppm_bytes_have_header_and_one_line_per_pixel() {
    let fp = wide_frame(3);
    let bytes = render_frame_bytes(&fp);
    let expected: &[u8] = b"P3\n4 4\n255\n\
0 255 255\n0 255 255\n0 255 255\n0 255 255\n\
0 255 255\n255 0 255\n255 0 255\n255 0 255\n\
0 255 255\n255 0 255\n0 0 0\n255 0 255\n\
0 255 255\n255 0 255\n255 0 255\n255 0 255\n";
    assert_eq!(bytes, expected);
    // Three header lines plus width * height pixel lines.
    let newlines = bytes.iter().filter(|&&b| b == b'\n').count();
    assert_eq!(newlines, 3 + 16);
}

#[test]
fn ppm_serialises_any_pixel_sequence_in_order() {
    let pix = vec![rgb(1, 2, 3), rgb(255, 0, 128)];
    let bytes = ppm_bytes(2, 1, &pix);
    assert_eq!(bytes, b"P3\n2 1\n255\n1 2 3\n255 0 128\n");
}

#[test]
fn smallest_frame_serialises_whole_pipeline() {
    // A 1x1 first frame: its single pixel maps near (-1.615, -1.615),
    // stays inside the radius through budget 1, and comes out black.
    let fp = frame_params(1, 1, 1);
    let pix = render_frame(&fp);
    assert_eq!(pix, vec![rgb(0, 0, 0)]);
    let bytes = render_frame_bytes(&fp);
    assert_eq!(bytes, b"P3\n1 1\n255\n0 0 0\n");
}

#[test]
fn filenames_are_zero_padded_to_four_digits() {
    assert_eq!(frame_filename(1), b"out/out0001.ppm");
    assert_eq!(frame_filename(42), b"out/out0042.ppm");
    assert_eq!(frame_filename(999), b"out/out0999.ppm");
    assert_eq!(frame_filename(2000), b"out/out2000.ppm");
    assert_eq!(frame_filename(12345), b"out/out12345.ppm");
}
