//! Escape-time colorizer: iterate `c := c*c + z0` from `c = 0` and count the
//! steps until `|c|^2` exceeds a fixed threshold; the count determines the
//! pixel color, and a point that never escapes within the detail budget gets
//! the fixed in-set color (white).
//!
//! All arithmetic is fixed-point over raw `i64` values (`FRAC` raw units per
//! 1.0); a squared magnitude is therefore measured in `FRAC * FRAC` raw
//! units.

use vstd::prelude::*;

verus! {

use vstd::math::abs;
use crate::fixed::{FRAC, mul_fix};

/// Escape threshold for the squared magnitude, in raw squared units: 32.0.
pub const THRESHOLD: i64 = 32 * 65536 * 65536;

/// Fixed factor of the escape-speed color formula.
pub const COLOR_SCALE: u32 = 16;

/// Color of a point that never escapes: pure white.
pub const IN_SET_COLOR: u32 = 0xFFFFFF;

/// Largest magnitude of a starting-point component the colorizer accepts,
/// in raw units: 8.0.
pub const MAX_START: i64 = 8 * 65536;

/// Real part of `c*c + z0` for `c = (re, im)`, `z0 = (zr, _)`.
pub open spec fn step_re(re: int, im: int, zr: int) -> int {
    mul_fix(re, re) - mul_fix(im, im) + zr
}

/// Imaginary part of `c*c + z0` for `c = (re, im)`, `z0 = (_, zi)`.
pub open spec fn step_im(re: int, im: int, zi: int) -> int {
    2 * mul_fix(re, im) + zi
}

/// The accumulator after `n` iterations of `c := c*c + z0` from `c = 0`.
pub open spec fn iterate(zr: int, zi: int, n: nat) -> (int, int)
    decreases n,
{
    if n == 0 {
        (0int, 0int)
    } else {
        let prev = iterate(zr, zi, (n - 1) as nat);
        (step_re(prev.0, prev.1, zr), step_im(prev.0, prev.1, zi))
    }
}

/// Squared magnitude of `(re, im)`, in raw squared units.
pub open spec fn mag_sq(re: int, im: int) -> int {
    re * re + im * im
}

/// The first iteration count `i` in `1..=detail` whose accumulator's squared
/// magnitude exceeds `t`, or `None` if the point stays within the threshold
/// for the whole detail budget.
pub open spec fn first_escape(zr: int, zi: int, detail: nat, t: int) -> Option<nat>
    decreases detail,
{
    if detail == 0 {
        None
    } else {
        match first_escape(zr, zi, (detail - 1) as nat, t) {
            Some(i) => Some(i),
            None => {
                let c = iterate(zr, zi, detail);
                if mag_sq(c.0, c.1) > t {
                    Some(detail)
                } else {
                    None
                }
            },
        }
    }
}

/// A channel value clamped to the byte range.
pub open spec fn clamp255(x: int) -> int {
    if x > 255 {
        255
    } else {
        x
    }
}

/// Packed color of a point that escapes at iteration `i`:
/// `rgb(i * scale, i, scale / i)`, each channel clamped to a byte.
pub open spec fn escape_color(i: nat, scale: nat) -> int
    recommends
        1 <= i,
{
    clamp255((i * scale) as int) * 65536 + clamp255(i as int) * 256 + clamp255(
        scale as int / i as int,
    )
}

/// Color of point `(zr, zi)` under detail budget `detail`, color factor
/// `scale`, and escape threshold `t`.
pub open spec fn color_spec(zr: int, zi: int, detail: nat, scale: nat, t: int) -> int {
    match first_escape(zr, zi, detail, t) {
        Some(i) => escape_color(i, scale),
        None => IN_SET_COLOR as int,
    }
}

/// Once the escape-free prefix ends with an escape, every larger detail
/// budget reports that same first escape.
pub proof fn lemma_first_escape_extend(zr: int, zi: int, n: nat, d: nat, t: int)
    requires
        first_escape(zr, zi, n, t) is None,
        mag_sq(iterate(zr, zi, n + 1).0, iterate(zr, zi, n + 1).1) > t,
        n < d,
    ensures
        first_escape(zr, zi, d, t) == Some((n + 1) as nat),
    decreases d,
{
    if d == n + 1 {
    } else {
        lemma_first_escape_extend(zr, zi, n, (d - 1) as nat, t);
    }
}

/// Packs the clamped channel values `r`, `g`, `b` into one `0xRRGGBB` word.
pub fn rgb_to_u32(r: u32, g: u32, b: u32) -> (c: u32)
    requires
        r <= 255,
        g <= 255,
        b <= 255,
    ensures
        c == 65536 * r + 256 * g + b,
{
    65536 * r + 256 * g + b
}

/// Escape time of the point `(z_re, z_im)`: the first iteration count in
/// `1..=detail` whose accumulator exceeds the squared-magnitude threshold,
/// or `None` if the point never escapes within the budget.
pub fn escape_time(z_re: i64, z_im: i64, detail: u32, threshold: i64) -> (r: Option<u32>)
    requires
        -MAX_START <= z_re <= MAX_START,
        -MAX_START <= z_im <= MAX_START,
        0 <= threshold <= THRESHOLD,
    ensures
        (match r {
            Some(i) => 1 <= i <= detail && first_escape(
                z_re as int,
                z_im as int,
                detail as nat,
                threshold as int,
            ) == Some(i as nat),
            None => first_escape(z_re as int, z_im as int, detail as nat, threshold as int)
                is None,
        }),
{
    let mut re: i64 = 0;
    let mut im: i64 = 0;
    let mut i: u32 = 0;
    while i < detail
        invariant
            i <= detail,
            -MAX_START <= z_re <= MAX_START,
            -MAX_START <= z_im <= MAX_START,
            0 <= threshold <= THRESHOLD,
            re == iterate(z_re as int, z_im as int, i as nat).0,
            im == iterate(z_re as int, z_im as int, i as nat).1,
            first_escape(z_re as int, z_im as int, i as nat, threshold as int) is None,
            re * re + im * im <= threshold,
        decreases detail - i,
    {
        proof {
            assert(-6 * FRAC <= re <= 6 * FRAC && -6 * FRAC <= im <= 6 * FRAC)
                by (nonlinear_arith)
                requires
                    re * re + im * im <= 32 * 65536 * 65536,
                    FRAC == 65536,
            ;
            assert(abs(re * re) <= 36 * FRAC * FRAC && abs(im * im) <= 36 * FRAC * FRAC
                && abs(re * im) <= 36 * FRAC * FRAC) by (nonlinear_arith)
                requires
                    -6 * FRAC <= re <= 6 * FRAC,
                    -6 * FRAC <= im <= 6 * FRAC,
                    FRAC == 65536,
            ;
            crate::fixed::lemma_mul_fix_bound(re as int, re as int, 36 * FRAC as int);
            crate::fixed::lemma_mul_fix_bound(im as int, im as int, 36 * FRAC as int);
            crate::fixed::lemma_mul_fix_bound(re as int, im as int, 36 * FRAC as int);
        }
        let sq_re: i64 = crate::fixed::mul_fix_exec(re, re);
        let sq_im: i64 = crate::fixed::mul_fix_exec(im, im);
        let cross: i64 = crate::fixed::mul_fix_exec(re, im);
        let nre: i64 = sq_re - sq_im + z_re;
        let nim: i64 = 2 * cross + z_im;
        proof {
            assert(abs(nre * nre) <= 6400 * FRAC * FRAC && abs(nim * nim) <= 6400 * FRAC
                * FRAC) by (nonlinear_arith)
                requires
                    -80 * FRAC <= nre <= 80 * FRAC,
                    -80 * FRAC <= nim <= 80 * FRAC,
                    FRAC == 65536,
            ;
        }
        let m1: i64 = nre * nre;
        let m2: i64 = nim * nim;
        i = i + 1;
        if m1 + m2 > threshold {
            proof {
                lemma_first_escape_extend(
                    z_re as int,
                    z_im as int,
                    (i - 1) as nat,
                    detail as nat,
                    threshold as int,
                );
            }
            return Some(i);
        }
        re = nre;
        im = nim;
    }
    None
}

/// Color of the point `(z_re, z_im)` under the fixed escape threshold:
/// `rgb(i * scale, i, scale / i)` (channels clamped to bytes) at the escape
/// iteration `i`, or white for a point that never escapes.
pub fn get_mandelbrot_color(z_re: i64, z_im: i64, detail: u32, scale: u32) -> (c: u32)
    requires
        -MAX_START <= z_re <= MAX_START,
        -MAX_START <= z_im <= MAX_START,
    ensures
        c == color_spec(z_re as int, z_im as int, detail as nat, scale as nat, THRESHOLD as int),
{
    match escape_time(z_re, z_im, detail, THRESHOLD) {
        Some(i) => {
            proof {
                assert(i as int * scale as int <= 0xffff_ffff * 0xffff_ffff)
                    by (nonlinear_arith)
                    requires
                        0 <= i <= 0xffff_ffff,
                        0 <= scale <= 0xffff_ffff,
                ;
            }
            let pr: u64 = (i as u64) * (scale as u64);
            let r: u32 = if pr > 255 {
                255
            } else {
                pr as u32
            };
            let g: u32 = if i > 255 {
                255
            } else {
                i
            };
            let q: u32 = scale / i;
            let b: u32 = if q > 255 {
                255
            } else {
                q
            };
            rgb_to_u32(r, g, b)
        },
        None => rgb_to_u32(255, 255, 255),
    }
}

/// The colorizer is a pure function: two colors computed for the same point,
/// detail budget, scale, and threshold are the same color.
pub proof fn lemma_colorizer_deterministic(
    zr: int,
    zi: int,
    detail: nat,
    scale: nat,
    t: int,
    c1: int,
    c2: int,
)
    requires
        c1 == color_spec(zr, zi, detail, scale, t),
        c2 == color_spec(zr, zi, detail, scale, t),
    ensures
        c1 == c2,
{
}

/// The accumulator of the origin stays at the origin forever.
pub proof fn lemma_iterate_origin(n: nat)
    ensures
        iterate(0, 0, n) == (0int, 0int),
    decreases n,
{
    if n > 0 {
        lemma_iterate_origin((n - 1) as nat);
        vstd::arithmetic::div_mod::lemma_div_of0(FRAC as int);
    }
}

/// The origin never escapes: for every detail budget of at least 1 and every
/// threshold of at least 4.0 (raw `4 * FRAC * FRAC`), the colorizer returns
/// the fixed in-set color.
pub proof fn lemma_origin_in_set(detail: nat, scale: nat, t: int)
    requires
        1 <= detail,
        4 * FRAC * FRAC <= t,
    ensures
        first_escape(0, 0, detail, t) is None,
        color_spec(0, 0, detail, scale, t) == IN_SET_COLOR as int,
    decreases detail,
{
    lemma_iterate_origin(detail);
    if detail > 1 {
        lemma_origin_in_set((detail - 1) as nat, scale, t);
    } else {
        assert(first_escape(0, 0, 0, t) is None);
    }
}

/// The point `(2, 0)` escapes exactly at iteration 1 for every threshold
/// below 4.0 (raw `4 * FRAC * FRAC`), whatever the detail budget.
pub proof fn lemma_known_escapee(detail: nat, t: int)
    requires
        1 <= detail,
        0 <= t < 4 * FRAC * FRAC,
    ensures
        first_escape(2 * FRAC as int, 0, detail, t) == Some(1nat),
{
    vstd::arithmetic::div_mod::lemma_div_of0(FRAC as int);
    assert(iterate(2 * FRAC as int, 0, 0) == (0int, 0int));
    assert(first_escape(2 * FRAC as int, 0, 0, t) is None);
    assert(iterate(2 * FRAC as int, 0, 1) == (2 * FRAC as int, 0int));
    assert(mag_sq(2 * FRAC as int, 0) == 4 * FRAC * FRAC) by (nonlinear_arith)
        requires
            FRAC == 65536,
    ;
    if detail > 1 {
        lemma_first_escape_extend(2 * FRAC as int, 0, 0, detail, t);
    }
}

} // verus!
