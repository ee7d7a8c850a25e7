//! Coordinate mapper: a linear pixel index plus the view parameters (center,
//! zoom) determine a point of the complex plane.
//!
//! A pixel index `p` on a `width x height` raster decomposes into
//! `x = p % width`, `y = p / width`; each axis coordinate is normalized to
//! the unscaled viewport `[-2, 2]` and then panned and zoomed:
//! `re = center_re + x_mapped / zoom` (and likewise for `im`).

use vstd::prelude::*;

verus! {

use vstd::math::abs;
use crate::fixed::{FRAC, div_fix};

/// Largest raster side length the mapper accepts.
pub const MAX_SIDE: usize = 1048576;

/// Largest center-coordinate magnitude the mapper accepts (a machine limit:
/// it keeps `center + offset` inside `i64`).
pub const MAX_CENTER: i64 = 0x4000_0000_0000;

/// A point of the complex plane, both parts in raw fixed-point units.
pub struct ComplexPoint {
    pub re: i64,
    pub im: i64,
}

/// Axis coordinate `c` of an axis of `size` pixels, normalized to `[0, 1)`
/// and rescaled to the unscaled viewport `[-2, 2]`, in raw units.
pub open spec fn axis_raw(c: int, size: int) -> int {
    (c * 4 * FRAC) / size - 2 * FRAC
}

/// Real part of the plane point of pixel `p`: pan and zoom applied to the
/// normalized horizontal coordinate.
pub open spec fn map_re(p: int, width: int, center_re: int, zoom: int) -> int {
    center_re + div_fix(axis_raw(p % width, width), zoom)
}

/// Imaginary part of the plane point of pixel `p`.
pub open spec fn map_im(p: int, width: int, height: int, center_im: int, zoom: int) -> int {
    center_im + div_fix(axis_raw(p / width, height), zoom)
}

/// The normalized axis coordinate lies in `[-2, 2)` (raw `[-2*FRAC, 2*FRAC)`).
pub proof fn lemma_axis_raw_bounds(c: int, size: int)
    requires
        0 < size,
        0 <= c < size,
    ensures
        -2 * FRAC <= axis_raw(c, size) < 2 * FRAC,
{
    let num = c * 4 * FRAC;
    assert(0 <= num && num < size * (4 * FRAC)) by (nonlinear_arith)
        requires
            0 <= c < size,
            num == c * 4 * FRAC,
            FRAC == 65536,
    ;
    vstd::arithmetic::div_mod::lemma_div_pos_is_pos(num, size);
    vstd::arithmetic::div_mod::lemma_multiply_divide_lt(num, size, 4 * FRAC);
}

/// Dividing a raw value by the raw zoom `FRAC` (zoom factor 1) is exact.
pub proof fn lemma_div_fix_unit(a: int)
    ensures
        div_fix(a, FRAC as int) == a,
{
    if a >= 0 {
        vstd::arithmetic::div_mod::lemma_div_multiples_vanish(a, FRAC as int);
        assert(a * FRAC == FRAC * a) by (nonlinear_arith);
    } else {
        vstd::arithmetic::div_mod::lemma_div_multiples_vanish(-a, FRAC as int);
        assert(-(a * FRAC) == FRAC * -a) by (nonlinear_arith);
    }
}

/// At zoom factor 1 with the center at the origin, every pixel of the raster
/// maps to a point whose real and imaginary parts lie in `[-2, 2]`.
pub proof fn lemma_map_bounds_unit_zoom(p: int, width: int, height: int)
    requires
        0 < width,
        0 < height,
        0 <= p < width * height,
    ensures
        -2 * FRAC <= map_re(p, width, 0, FRAC as int) <= 2 * FRAC,
        -2 * FRAC <= map_im(p, width, height, 0, FRAC as int) <= 2 * FRAC,
{
    let x = p % width;
    let y = p / width;
    vstd::arithmetic::div_mod::lemma_mod_division_less_than_divisor(p, width);
    vstd::arithmetic::div_mod::lemma_div_pos_is_pos(p, width);
    assert(y < height) by (nonlinear_arith)
        requires
            0 < width,
            p < width * height,
            y == p / width,
    ;
    lemma_axis_raw_bounds(x, width);
    lemma_axis_raw_bounds(y, height);
    lemma_div_fix_unit(axis_raw(x, width));
    lemma_div_fix_unit(axis_raw(y, height));
}

/// Raising the zoom never moves the mapped offset (the mapped coordinate's
/// distance from the center) farther out; and in the exact, unrounded reading
/// `|off| * FRAC / z` of that offset, a higher zoom shrinks a nonzero offset
/// strictly (the last clause is the strict comparison of those two rationals,
/// cross-multiplied by `z1 * z2`).
pub proof fn lemma_zoom_shrinks_offset(off: int, z1: int, z2: int)
    requires
        1 <= z1 < z2,
    ensures
        abs(div_fix(off, z2)) <= abs(div_fix(off, z1)),
        off != 0 ==> abs(off * FRAC) * z1 < abs(off * FRAC) * z2,
{
    crate::fixed::lemma_div_tz_abs(off * FRAC, z1);
    crate::fixed::lemma_div_tz_abs(off * FRAC, z2);
    vstd::arithmetic::div_mod::lemma_div_is_ordered_by_denominator(
        abs(off * FRAC) as int,
        z1,
        z2,
    );
    if off != 0 {
        assert(abs(off * FRAC) * z1 < abs(off * FRAC) * z2) by (nonlinear_arith)
            requires
                off != 0,
                FRAC == 65536,
                1 <= z1 < z2,
        ;
    }
}

/// For a fixed pixel and a fixed center, a strictly higher zoom maps the
/// pixel no farther from the center on either axis.
pub proof fn lemma_zoom_monotone(
    p: int,
    width: int,
    height: int,
    cre: int,
    cim: int,
    z1: int,
    z2: int,
)
    requires
        0 < width,
        0 < height,
        0 <= p < width * height,
        1 <= z1 < z2,
    ensures
        abs(map_re(p, width, cre, z2) - cre) <= abs(map_re(p, width, cre, z1) - cre),
        abs(map_im(p, width, height, cim, z2) - cim) <= abs(
            map_im(p, width, height, cim, z1) - cim,
        ),
{
    lemma_zoom_shrinks_offset(axis_raw(p % width, width), z1, z2);
    lemma_zoom_shrinks_offset(axis_raw(p / width, height), z1, z2);
}

/// Normalized axis coordinate of pixel-axis value `c` on an axis of `size`
/// pixels.
pub fn axis_to_plane(c: usize, size: usize) -> (r: i64)
    requires
        0 < size <= MAX_SIDE,
        c < size,
    ensures
        r == axis_raw(c as int, size as int),
        -2 * FRAC <= r < 2 * FRAC,
{
    proof {
        lemma_axis_raw_bounds(c as int, size as int);
    }
    let num: u64 = (c as u64) * 4 * (FRAC as u64);
    ((num / (size as u64)) as i64) - 2 * FRAC
}

/// Plane point of pixel index `p` on a `width x height` raster, for view
/// center `(center_re, center_im)` and zoom factor `zoom` (raw units; raw
/// `zoom == FRAC` means factor 1).
pub fn map_pixel(
    p: usize,
    width: usize,
    height: usize,
    center_re: i64,
    center_im: i64,
    zoom: i64,
) -> (z: ComplexPoint)
    requires
        0 < width <= MAX_SIDE,
        0 < height <= MAX_SIDE,
        p < width * height,
        1 <= zoom,
        -MAX_CENTER <= center_re <= MAX_CENTER,
        -MAX_CENTER <= center_im <= MAX_CENTER,
    ensures
        z.re == map_re(p as int, width as int, center_re as int, zoom as int),
        z.im == map_im(p as int, width as int, height as int, center_im as int, zoom as int),
        abs(z.re - center_re) <= 2 * FRAC * FRAC,
        abs(z.im - center_im) <= 2 * FRAC * FRAC,
        FRAC <= zoom ==> abs(z.re - center_re) <= 2 * FRAC && abs(z.im - center_im) <= 2 * FRAC,
{
    let x: usize = p % width;
    let y: usize = p / width;
    proof {
        assert(y < height) by (nonlinear_arith)
            requires
                0 < width,
                p < width * height,
                x == p as int % width as int,
                y == p as int / width as int,
        ;
    }
    let xf: i64 = axis_to_plane(x, width);
    let yf: i64 = axis_to_plane(y, height);
    proof {
        crate::fixed::lemma_div_tz_bound(xf * FRAC, zoom as int);
        crate::fixed::lemma_div_tz_bound(yf * FRAC, zoom as int);
        assert(abs(xf * FRAC) <= 2 * FRAC * FRAC && abs(yf * FRAC) <= 2 * FRAC * FRAC)
            by (nonlinear_arith)
            requires
                -2 * FRAC <= xf < 2 * FRAC,
                -2 * FRAC <= yf < 2 * FRAC,
                FRAC == 65536,
        ;
        if FRAC <= zoom {
            assert(abs(xf * FRAC) <= 2 * FRAC * zoom && abs(yf * FRAC) <= 2 * FRAC * zoom)
                by (nonlinear_arith)
                requires
                    abs(xf * FRAC) <= 2 * FRAC * FRAC,
                    abs(yf * FRAC) <= 2 * FRAC * FRAC,
                    FRAC <= zoom,
                    FRAC == 65536,
            ;
            crate::fixed::lemma_div_tz_quotient_bound(xf * FRAC, zoom as int, 2 * FRAC as int);
            crate::fixed::lemma_div_tz_quotient_bound(yf * FRAC, zoom as int, 2 * FRAC as int);
        }
    }
    let off_re: i64 = crate::fixed::div_tz_exec(xf * FRAC, zoom);
    let off_im: i64 = crate::fixed::div_tz_exec(yf * FRAC, zoom);
    ComplexPoint { re: center_re + off_re, im: center_im + off_im }
}

} // verus!
