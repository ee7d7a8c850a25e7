use mandelbrot::color::IN_SET_COLOR;
use mandelbrot::fixed::FRAC;
use mandelbrot::view::{get_pixel, regenerate, transition, Event, ViewState, DEFAULT_DETAIL, DEFAULT_ZOOM, MAX_ZOOM};

#[test]
fn new_state_has_defaults() {
    let s = ViewState::new();
    assert_eq!(s.center_re, 0);
    assert_eq!(s.center_im, 0);
    assert_eq!(s.zoom, DEFAULT_ZOOM);
    assert_eq!(s.detail, DEFAULT_DETAIL);
}

#[test]
fn detail_doubles_and_halves() {
    let mut s = ViewState::new();
    assert!(transition(&mut s, Event::IncreaseDetail, 4, 4));
    assert_eq!(s.detail, 510);
    assert!(transition(&mut s, Event::IncreaseDetail, 4, 4));
    assert_eq!(s.detail, 1020);
    assert!(transition(&mut s, Event::DecreaseDetail, 4, 4));
    assert_eq!(s.detail, 510);
}

#[test]
fn detail_guard_blocks_below_one() {
    let mut s = ViewState { center_re: 0, center_im: 0, zoom: DEFAULT_ZOOM, detail: 1 };
    let regen = transition(&mut s, Event::DecreaseDetail, 4, 4);
    assert!(!regen);
    assert_eq!(s.detail, 1);
    assert_eq!(s.zoom, DEFAULT_ZOOM);
    assert_eq!(s.center_re, 0);
    assert_eq!(s.center_im, 0);
}

#[test]
fn zoom_in_multiplies_by_three_halves() {
    let mut s = ViewState::new();
    assert!(transition(&mut s, Event::ZoomIn, 4, 4));
    assert_eq!(s.zoom, 3 * FRAC);
    assert!(transition(&mut s, Event::ZoomIn, 4, 4));
    assert_eq!(s.zoom, 9 * FRAC / 2);
}

#[test]
fn zoom_guard_blocks_at_floor() {
    let mut s = ViewState::new();
    assert_eq!(s.zoom, 2 * FRAC);
    let regen = transition(&mut s, Event::ZoomOut, 4, 4);
    assert!(!regen, "a zoom-out at the floor must not trigger a rewrite");
    assert_eq!(s.zoom, 2 * FRAC);
    assert_eq!(s.detail, DEFAULT_DETAIL);
    assert_eq!(s.center_re, 0);
    assert_eq!(s.center_im, 0);
}

#[test]
fn zoom_out_returns_to_floor() {
    let mut s = ViewState::new();
    transition(&mut s, Event::ZoomIn, 4, 4);
    assert_eq!(s.zoom, 3 * FRAC);
    let regen = transition(&mut s, Event::ZoomOut, 4, 4);
    assert!(regen);
    assert_eq!(s.zoom, 2 * FRAC);
}

#[test]
fn regenerate_event_rewrites_without_state_change() {
    let mut s = ViewState::new();
    let regen = transition(&mut s, Event::Regenerate, 4, 4);
    assert!(regen);
    assert_eq!(s.zoom, DEFAULT_ZOOM);
    assert_eq!(s.detail, DEFAULT_DETAIL);
}

#[test]
fn pan_converges_to_click_point() {
    // Clicking pixel (75, 75) of a 100 x 100 raster maps to 1 + 1i; with the
    // zoom fixed the center approaches it monotonically with no overshoot.
    let (w, h) = (100usize, 100usize);
    let mut s = ViewState::new();
    let target = FRAC; // 75 / 100 * 4 - 2 == 1.0
    let mut last = target;
    for _ in 0..30 {
        let regen = transition(&mut s, Event::PanClick { px: 75, py: 75 }, w, h);
        assert!(regen);
        let d_re = target - s.center_re;
        let d_im = target - s.center_im;
        assert!(d_re >= 0, "the center must not overshoot the click point");
        assert!(d_im >= 0, "the center must not overshoot the click point");
        assert!(d_re <= last, "the distance must not grow");
        assert_eq!(d_re, d_im);
        if last * FRAC >= s.zoom {
            assert!(d_re < last, "a whole-unit shift must strictly shrink the distance");
        }
        last = d_re;
    }
    // After 30 halvings of an initial distance of 1.0 the center has
    // converged to within a raw unit or two of the click point.
    assert!(last <= 2);
}

#[test]
fn pan_first_step_is_half_at_default_zoom() {
    let mut s = ViewState::new();
    transition(&mut s, Event::PanClick { px: 75, py: 50 }, 100, 100);
    // Real axis: click at 1.0, center moves by 1.0 / 2.0 = 0.5.
    assert_eq!(s.center_re, FRAC / 2);
    // Imaginary axis: click at 0.0, center stays.
    assert_eq!(s.center_im, 0);
    assert_eq!(s.zoom, DEFAULT_ZOOM);
}

#[test]
fn regeneration_fills_the_whole_buffer() {
    let (w, h) = (8usize, 6usize);
    let s = ViewState::new();
    let mut buffer: Vec<u32> = vec![0; w * h];
    regenerate(&mut buffer, &s, w, h);
    assert_eq!(buffer.len(), w * h);
    for p in 0..(w * h) {
        assert_eq!(buffer[p], get_pixel(&s, p, w, h));
    }
}

#[test]
fn regeneration_paints_the_set_interior_white() {
    // On a 4 x 3 raster at the default view, pixel (2, 1) maps to
    // (0, -1/3), which never escapes.
    let (w, h) = (4usize, 3usize);
    let s = ViewState::new();
    let mut buffer: Vec<u32> = vec![0; w * h];
    regenerate(&mut buffer, &s, w, h);
    assert_eq!(buffer[1 * w + 2], IN_SET_COLOR);
}

#[test]
fn detail_stops_doubling_at_the_top_of_u32() {
    let mut s = ViewState { center_re: 0, center_im: 0, zoom: DEFAULT_ZOOM, detail: u32::MAX };
    let regen = transition(&mut s, Event::IncreaseDetail, 4, 4);
    assert!(regen);
    assert_eq!(s.detail, u32::MAX);
    let mut t = ViewState { center_re: 0, center_im: 0, zoom: DEFAULT_ZOOM, detail: 0x7fff_ffff };
    transition(&mut t, Event::IncreaseDetail, 4, 4);
    assert_eq!(t.detail, 0xffff_fffe);
}

#[test]
fn zoom_stops_growing_at_the_cap() {
    let mut s = ViewState { center_re: 0, center_im: 0, zoom: MAX_ZOOM, detail: 1 };
    let regen = transition(&mut s, Event::ZoomIn, 4, 4);
    assert!(regen);
    assert_eq!(s.zoom, MAX_ZOOM);
}
