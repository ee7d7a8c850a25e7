use mandelbrot::fixed::FRAC;
use mandelbrot::mapper::map_pixel;

#[test]
fn unit_zoom_maps_into_viewport() {
    // At zoom factor 1 (raw FRAC) and center (0, 0), every pixel lands in
    // [-2, 2] on both axes.
    let (w, h) = (7usize, 5usize);
    for p in 0..(w * h) {
        let z = map_pixel(p, w, h, 0, 0, FRAC);
        assert!(-2 * FRAC <= z.re && z.re <= 2 * FRAC);
        assert!(-2 * FRAC <= z.im && z.im <= 2 * FRAC);
    }
}

#[test]
fn corner_pixel_maps_to_top_left() {
    // Pixel 0 normalizes to (0, 0) on both axes, so it maps to -2 - 2i at
    // zoom factor 1, and to -1 - 1i at the default zoom factor 2.
    let z1 = map_pixel(0, 4, 4, 0, 0, FRAC);
    assert_eq!(z1.re, -2 * FRAC);
    assert_eq!(z1.im, -2 * FRAC);
    let z2 = map_pixel(0, 4, 4, 0, 0, 2 * FRAC);
    assert_eq!(z2.re, -FRAC);
    assert_eq!(z2.im, -FRAC);
}

#[test]
fn pixel_index_decomposes_row_major() {
    // On a 4-wide raster, pixel 6 is column 2, row 1: column 2 of 4
    // normalizes to the axis midpoint 0, row 1 of 2 maps to -2 + 4/2 = 0.
    let z = map_pixel(6, 4, 2, 0, 0, FRAC);
    assert_eq!(z.re, 0);
    assert_eq!(z.im, 0);
}

#[test]
fn center_offsets_the_view() {
    let z = map_pixel(0, 4, 4, FRAC / 2, -FRAC / 4, 2 * FRAC);
    assert_eq!(z.re, FRAC / 2 - FRAC);
    assert_eq!(z.im, -FRAC / 4 - FRAC);
}

#[test]
fn higher_zoom_moves_points_toward_center() {
    // Pixel 1 of a 4-wide row normalizes to -1 on the real axis.
    let (w, h) = (4usize, 4usize);
    let mut last = i64::MAX;
    for zoom in [2 * FRAC, 3 * FRAC, 4 * FRAC, 8 * FRAC] {
        let z = map_pixel(1, w, h, 0, 0, zoom);
        let dist = z.re.abs();
        assert!(dist < last, "zoom {} did not shrink the offset", zoom);
        last = dist;
    }
}

#[test]
fn zoom_shrink_concrete_values() {
    let near = map_pixel(1, 4, 4, 0, 0, 2 * FRAC);
    let far = map_pixel(1, 4, 4, 0, 0, 4 * FRAC);
    assert_eq!(near.re, -FRAC / 2);
    assert_eq!(far.re, -FRAC / 4);
}
