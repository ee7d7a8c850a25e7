use mandelbrot::color::{escape_time, get_mandelbrot_color, rgb_to_u32, COLOR_SCALE, IN_SET_COLOR, THRESHOLD};
use mandelbrot::fixed::FRAC;

const FRAC_SQ: i64 = 65536 * 65536;

#[test]
fn rgb_packs_channels() {
    assert_eq!(rgb_to_u32(0, 0, 0), 0);
    assert_eq!(rgb_to_u32(1, 2, 3), 0x010203);
    assert_eq!(rgb_to_u32(255, 255, 255), 0xFFFFFF);
}

#[test]
fn escape_determinism() {
    let a = get_mandelbrot_color(5 * FRAC, 0, 100, COLOR_SCALE);
    let b = get_mandelbrot_color(5 * FRAC, 0, 100, COLOR_SCALE);
    assert_eq!(a, b);
    let c = get_mandelbrot_color(-3 * FRAC / 2, FRAC / 4, 255, COLOR_SCALE);
    let d = get_mandelbrot_color(-3 * FRAC / 2, FRAC / 4, 255, COLOR_SCALE);
    assert_eq!(c, d);
}

#[test]
fn origin_never_escapes() {
    assert_eq!(escape_time(0, 0, 1, 4 * FRAC_SQ), None);
    assert_eq!(escape_time(0, 0, 255, 4 * FRAC_SQ), None);
    assert_eq!(escape_time(0, 0, 1000, THRESHOLD), None);
    assert_eq!(get_mandelbrot_color(0, 0, 1, COLOR_SCALE), IN_SET_COLOR);
    assert_eq!(get_mandelbrot_color(0, 0, 255, COLOR_SCALE), IN_SET_COLOR);
}

#[test]
fn two_escapes_on_first_iteration_below_four() {
    // |c|^2 after one iteration from (2, 0) is exactly 4.0.
    assert_eq!(escape_time(2 * FRAC, 0, 5, 4 * FRAC_SQ - 1), Some(1));
    assert_eq!(escape_time(2 * FRAC, 0, 1, 0), Some(1));
    // At threshold exactly 4.0 the first iteration does not escape.
    assert_ne!(escape_time(2 * FRAC, 0, 5, 4 * FRAC_SQ), Some(1));
}

#[test]
fn five_escapes_on_second_iteration() {
    // From (5, 0): iteration 1 gives |c|^2 = 25 <= 32, iteration 2 gives
    // c = 30, |c|^2 = 900 > 32.
    assert_eq!(escape_time(5 * FRAC, 0, 10, THRESHOLD), Some(2));
    // Expected color: the formula at i = 2, scale = 16: rgb(32, 2, 8).
    assert_eq!(get_mandelbrot_color(5 * FRAC, 0, 10, 16), 32 * 65536 + 2 * 256 + 8);
}

#[test]
fn channels_clamp_to_byte_range() {
    // From (3, 0): iteration 1 gives |c|^2 = 9 <= 32, iteration 2 gives
    // c = 12, |c|^2 = 144 > 32: escape at i = 2. With scale 300 the red
    // channel (600) clamps to 255 and blue is 300 / 2 = 150.
    assert_eq!(escape_time(3 * FRAC, 0, 10, THRESHOLD), Some(2));
    assert_eq!(get_mandelbrot_color(3 * FRAC, 0, 10, 300), 255 * 65536 + 2 * 256 + 150);
}

#[test]
fn tiny_threshold_escapes_at_once() {
    // Any nonzero point exceeds a zero threshold on the first iteration.
    assert_eq!(escape_time(1, 0, 3, 0), Some(1));
    assert_eq!(escape_time(0, -1, 3, 0), Some(1));
}

#[test]
fn in_set_point_stays_white_at_high_detail() {
    // (-1, 0) is in the Mandelbrot set: 0, -1, 0, -1, ...
    assert_eq!(escape_time(-FRAC, 0, 1000, THRESHOLD), None);
    assert_eq!(get_mandelbrot_color(-FRAC, 0, 1000, COLOR_SCALE), IN_SET_COLOR);
}
