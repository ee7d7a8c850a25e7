//! View-state controller: the interactive state (center, zoom, detail) and
//! the policy that updates it from discrete input events, plus the full
//! regeneration pass that rewrites a pixel buffer from the current state.

use vstd::prelude::*;

verus! {

use vstd::math::abs;
use crate::fixed::{FRAC, div_fix};
use crate::mapper::{MAX_SIDE, axis_raw, map_re, map_im};
use crate::color::{THRESHOLD, COLOR_SCALE, color_spec};

/// Default detail (maximum iteration count).
pub const DEFAULT_DETAIL: u32 = 255;

/// Default zoom in raw units: factor 2.0, the unscaled view spanning [-2, 2].
pub const DEFAULT_ZOOM: i64 = 2 * 65536;

/// Largest zoom the controller lets a zoom-in reach, in raw units (a machine
/// limit that keeps the zoom arithmetic inside `i64`).
pub const MAX_ZOOM: i64 = 0x100_0000_0000;

/// Numerator of the multiplicative zoom step 1.5.
pub const ZOOM_STEP_NUM: i64 = 3;

/// Denominator of the multiplicative zoom step 1.5.
pub const ZOOM_STEP_DEN: i64 = 2;

/// The interactive view state: pan center and zoom in raw fixed-point units,
/// and the detail (maximum iteration count).
pub struct ViewState {
    pub center_re: i64,
    pub center_im: i64,
    pub zoom: i64,
    pub detail: u32,
}

/// A discrete input event, reported at most once per host tick.
pub enum Event {
    IncreaseDetail,
    DecreaseDetail,
    Regenerate,
    ZoomIn,
    ZoomOut,
    PanClick { px: usize, py: usize },
}

impl ViewState {
    /// The controller's invariant: the zoom never drops below the default
    /// factor 2.0 and never leaves the machine range, the center stays in
    /// the unscaled viewport `[-2, 2]` on both axes, and the detail stays a
    /// positive count.
    pub open spec fn wf(self) -> bool {
        &&& DEFAULT_ZOOM <= self.zoom <= MAX_ZOOM
        &&& -2 * FRAC <= self.center_re <= 2 * FRAC
        &&& -2 * FRAC <= self.center_im <= 2 * FRAC
        &&& 1 <= self.detail
    }

    /// The startup state: center at the origin, zoom factor 2.0, detail 255.
    pub fn new() -> (s: ViewState)
        ensures
            s.wf(),
            s.center_re == 0,
            s.center_im == 0,
            s.zoom == DEFAULT_ZOOM,
            s.detail == DEFAULT_DETAIL,
    {
        ViewState { center_re: 0, center_im: 0, zoom: DEFAULT_ZOOM, detail: DEFAULT_DETAIL }
    }

    /// Doubles the detail; at the top of the `u32` range the detail is left
    /// unchanged instead of wrapping.
    pub fn increase_detail(&mut self)
        requires
            old(self).wf(),
        ensures
            final(self).wf(),
            final(self).detail == if old(self).detail <= 0x7fff_ffffu32 {
                2 * old(self).detail as int
            } else {
                old(self).detail as int
            },
            final(self).center_re == old(self).center_re,
            final(self).center_im == old(self).center_im,
            final(self).zoom == old(self).zoom,
    {
        if self.detail <= 0x7fff_ffff {
            self.detail = 2 * self.detail;
        }
    }

    /// Halves the detail if that leaves at least 1; below 2 the event is a
    /// guarded no-op and reports that nothing changed.
    pub fn decrease_detail(&mut self) -> (changed: bool)
        requires
            old(self).wf(),
        ensures
            final(self).wf(),
            changed == (old(self).detail >= 2),
            final(self).detail == if old(self).detail >= 2 {
                old(self).detail as int / 2
            } else {
                old(self).detail as int
            },
            final(self).center_re == old(self).center_re,
            final(self).center_im == old(self).center_im,
            final(self).zoom == old(self).zoom,
    {
        if self.detail >= 2 {
            self.detail = self.detail / 2;
            true
        } else {
            false
        }
    }

    /// Multiplies the zoom by 1.5, truncating to raw units; past `MAX_ZOOM`
    /// the zoom is left unchanged instead of overflowing.
    pub fn zoom_in(&mut self)
        requires
            old(self).wf(),
        ensures
            final(self).wf(),
            final(self).zoom == if (ZOOM_STEP_NUM * old(self).zoom) / ZOOM_STEP_DEN as int <= MAX_ZOOM {
                (ZOOM_STEP_NUM * old(self).zoom) / ZOOM_STEP_DEN as int
            } else {
                old(self).zoom as int
            },
            final(self).center_re == old(self).center_re,
            final(self).center_im == old(self).center_im,
            final(self).detail == old(self).detail,
    {
        let tripled: i64 = ZOOM_STEP_NUM * self.zoom;
        let nz: i64 = crate::fixed::div_tz_exec(tripled, ZOOM_STEP_DEN);
        proof {
            vstd::arithmetic::div_mod::lemma_div_multiples_vanish(self.zoom as int, 2);
            vstd::arithmetic::div_mod::lemma_div_is_ordered(
                2 * self.zoom as int,
                3 * self.zoom as int,
                2,
            );
        }
        if nz <= MAX_ZOOM {
            self.zoom = nz;
        }
    }

    /// Divides the zoom by 1.5, but only while the zoom is above the default
    /// factor 2.0; at the floor the event is a guarded no-op and reports that
    /// nothing changed. The result never drops below the floor.
    pub fn zoom_out(&mut self) -> (changed: bool)
        requires
            old(self).wf(),
        ensures
            final(self).wf(),
            changed == (old(self).zoom > DEFAULT_ZOOM),
            final(self).zoom == if old(self).zoom > DEFAULT_ZOOM {
                vstd::math::max(
                    (ZOOM_STEP_DEN * old(self).zoom) / ZOOM_STEP_NUM as int,
                    DEFAULT_ZOOM as int,
                )
            } else {
                old(self).zoom as int
            },
            final(self).center_re == old(self).center_re,
            final(self).center_im == old(self).center_im,
            final(self).detail == old(self).detail,
    {
        if self.zoom <= DEFAULT_ZOOM {
            return false;
        }
        let doubled: i64 = ZOOM_STEP_DEN * self.zoom;
        let nz: i64 = crate::fixed::div_tz_exec(doubled, ZOOM_STEP_NUM);
        proof {
            vstd::arithmetic::div_mod::lemma_div_nonincreasing(2 * self.zoom as int, 3);
            vstd::arithmetic::div_mod::lemma_div_pos_is_pos(2 * self.zoom as int, 3);
        }
        if nz < DEFAULT_ZOOM {
            self.zoom = DEFAULT_ZOOM;
        } else {
            self.zoom = nz;
        }
        true
    }

    /// Moves the center toward the clicked plane point by the fraction
    /// `1 / zoom` of the remaining distance, per axis.
    pub fn pan(&mut self, click_re: i64, click_im: i64)
        requires
            old(self).wf(),
            -2 * FRAC <= click_re <= 2 * FRAC,
            -2 * FRAC <= click_im <= 2 * FRAC,
        ensures
            final(self).wf(),
            final(self).center_re == old(self).center_re + div_fix(
                click_re - old(self).center_re,
                old(self).zoom as int,
            ),
            final(self).center_im == old(self).center_im + div_fix(
                click_im - old(self).center_im,
                old(self).zoom as int,
            ),
            final(self).zoom == old(self).zoom,
            final(self).detail == old(self).detail,
    {
        proof {
            lemma_pan_axis_step(self.center_re as int, click_re as int, self.zoom as int);
            lemma_pan_axis_step(self.center_im as int, click_im as int, self.zoom as int);
        }
        let d_re: i64 = click_re - self.center_re;
        let d_im: i64 = click_im - self.center_im;
        let shift_re: i64 = crate::fixed::div_tz_exec(d_re * FRAC, self.zoom);
        let shift_im: i64 = crate::fixed::div_tz_exec(d_im * FRAC, self.zoom);
        self.center_re = self.center_re + shift_re;
        self.center_im = self.center_im + shift_im;
    }
}

/// The new center after one pan step toward `click` on one axis.
pub open spec fn pan_next(center: int, click: int, zoom: int) -> int {
    center + div_fix(click - center, zoom)
}

/// One pan step moves the center toward the clicked coordinate and never past
/// it: the remaining distance keeps its direction and does not grow; and
/// while at least one whole raw unit of shift remains (`|d| * FRAC >= zoom`),
/// the distance strictly shrinks.
pub proof fn lemma_pan_axis_step(center: int, click: int, zoom: int)
    requires
        FRAC <= zoom,
    ensures
        ({
            let d = click - center;
            let d2 = click - pan_next(center, click, zoom);
            &&& abs(d2) <= abs(d)
            &&& (d >= 0 ==> 0 <= d2 <= d)
            &&& (d <= 0 ==> d <= d2 <= 0)
            &&& (abs(d) * FRAC >= zoom ==> abs(d2) < abs(d))
        }),
{
    let d = click - center;
    let shift = div_fix(d, zoom);
    crate::fixed::lemma_div_tz_abs(d * FRAC, zoom);
    assert(abs(d * FRAC) == abs(d) * FRAC);
    assert(abs(d * FRAC) <= abs(d) * zoom) by (nonlinear_arith)
        requires
            FRAC <= zoom,
            0 <= abs(d),
            abs(d * FRAC) == abs(d) * FRAC,
    ;
    crate::fixed::lemma_div_tz_quotient_bound(d * FRAC, zoom, abs(d) as int);
    if d >= 0 {
        assert(0 <= shift <= d);
    } else {
        assert(d <= shift <= 0);
    }
    if abs(d) * FRAC >= zoom {
        vstd::arithmetic::div_mod::lemma_div_is_ordered(zoom, abs(d) as int * FRAC, zoom);
        vstd::arithmetic::div_mod::lemma_div_by_self(zoom);
        assert(abs(shift) >= 1);
    }
}

/// Color of pixel `p` of a `width x height` raster under view state `s`: the
/// escape-time color of the plane point the pixel maps to.
pub open spec fn pixel_color(p: int, width: int, height: int, s: ViewState) -> int {
    color_spec(
        map_re(p, width, s.center_re as int, s.zoom as int),
        map_im(p, width, height, s.center_im as int, s.zoom as int),
        s.detail as nat,
        COLOR_SCALE as nat,
        THRESHOLD as int,
    )
}

/// Color of pixel `p` of a `width x height` raster under view state `state`.
pub fn get_pixel(state: &ViewState, p: usize, width: usize, height: usize) -> (c: u32)
    requires
        state.wf(),
        0 < width <= MAX_SIDE,
        0 < height <= MAX_SIDE,
        p < width * height,
    ensures
        c == pixel_color(p as int, width as int, height as int, *state),
{
    let z = crate::mapper::map_pixel(
        p,
        width,
        height,
        state.center_re,
        state.center_im,
        state.zoom,
    );
    crate::color::get_mandelbrot_color(z.re, z.im, state.detail, COLOR_SCALE)
}

/// Regeneration pass: rewrites every pixel of the buffer from the current
/// view state, leaving the buffer's length unchanged.
pub fn regenerate(buffer: &mut Vec<u32>, state: &ViewState, width: usize, height: usize)
    requires
        state.wf(),
        0 < width <= MAX_SIDE,
        0 < height <= MAX_SIDE,
        old(buffer).len() == width * height,
    ensures
        final(buffer).len() == old(buffer).len(),
        forall|p: int|
            0 <= p < final(buffer).len() ==> final(buffer)[p] == pixel_color(
                p,
                width as int,
                height as int,
                *state,
            ),
{
    let len: usize = buffer.len();
    let mut p: usize = 0;
    while p < len
        invariant
            state.wf(),
            0 < width <= MAX_SIDE,
            0 < height <= MAX_SIDE,
            len == width * height,
            buffer.len() == len,
            p <= len,
            forall|q: int|
                0 <= q < p ==> buffer[q] == pixel_color(q, width as int, height as int, *state),
        decreases len - p,
    {
        let c = get_pixel(state, p, width, height);
        buffer[p] = c;
        p = p + 1;
    }
}

/// Applies one input event to the view state and reports whether the event
/// calls for a regeneration pass. Guarded no-ops (decrease-detail below 2,
/// zoom-out at the floor) change nothing and call for none.
pub fn transition(state: &mut ViewState, event: Event, width: usize, height: usize) -> (regen:
    bool)
    requires
        old(state).wf(),
        0 < width <= MAX_SIDE,
        0 < height <= MAX_SIDE,
        (event matches Event::PanClick { px, py } ==> px < width && py < height),
    ensures
        final(state).wf(),
        (match event {
            Event::IncreaseDetail => {
                &&& regen
                &&& final(state).detail == if old(state).detail <= 0x7fff_ffffu32 {
                    2 * old(state).detail as int
                } else {
                    old(state).detail as int
                }
                &&& final(state).center_re == old(state).center_re
                &&& final(state).center_im == old(state).center_im
                &&& final(state).zoom == old(state).zoom
            },
            Event::DecreaseDetail => {
                &&& regen == (old(state).detail >= 2)
                &&& final(state).detail == if old(state).detail >= 2 {
                    old(state).detail as int / 2
                } else {
                    old(state).detail as int
                }
                &&& final(state).center_re == old(state).center_re
                &&& final(state).center_im == old(state).center_im
                &&& final(state).zoom == old(state).zoom
            },
            Event::Regenerate => regen && *final(state) == *old(state),
            Event::ZoomIn => {
                &&& regen
                &&& final(state).zoom == if (ZOOM_STEP_NUM * old(state).zoom) / ZOOM_STEP_DEN as int
                    <= MAX_ZOOM {
                    (ZOOM_STEP_NUM * old(state).zoom) / ZOOM_STEP_DEN as int
                } else {
                    old(state).zoom as int
                }
                &&& final(state).center_re == old(state).center_re
                &&& final(state).center_im == old(state).center_im
                &&& final(state).detail == old(state).detail
            },
            Event::ZoomOut => {
                &&& regen == (old(state).zoom > DEFAULT_ZOOM)
                &&& final(state).zoom == if old(state).zoom > DEFAULT_ZOOM {
                    vstd::math::max(
                        (ZOOM_STEP_DEN * old(state).zoom) / ZOOM_STEP_NUM as int,
                        DEFAULT_ZOOM as int,
                    )
                } else {
                    old(state).zoom as int
                }
                &&& final(state).center_re == old(state).center_re
                &&& final(state).center_im == old(state).center_im
                &&& final(state).detail == old(state).detail
            },
            Event::PanClick { px, py } => {
                &&& regen
                &&& final(state).center_re == pan_next(
                    old(state).center_re as int,
                    axis_raw(px as int, width as int),
                    old(state).zoom as int,
                )
                &&& final(state).center_im == pan_next(
                    old(state).center_im as int,
                    axis_raw(py as int, height as int),
                    old(state).zoom as int,
                )
                &&& final(state).zoom == old(state).zoom
                &&& final(state).detail == old(state).detail
            },
        }),
{
    match event {
        Event::IncreaseDetail => {
            state.increase_detail();
            true
        },
        Event::DecreaseDetail => state.decrease_detail(),
        Event::Regenerate => true,
        Event::ZoomIn => {
            state.zoom_in();
            true
        },
        Event::ZoomOut => state.zoom_out(),
        Event::PanClick { px, py } => {
            let click_re: i64 = crate::mapper::axis_to_plane(px, width);
            let click_im: i64 = crate::mapper::axis_to_plane(py, height);
            state.pan(click_re, click_im);
            true
        },
    }
}

} // verus!
