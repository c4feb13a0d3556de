//! Viewport parameters.
//!
//! A per-frame snapshot of the camera: the visible rectangle of the complex
//! plane, a pan offset, a zoom factor, the iteration cap and the output
//! dimensions.  All plane coordinates are 32.32 fixed point.  The camera
//! controller mutates the snapshot between frames through the methods below;
//! the renderer only reads it.

use vstd::prelude::*;

verus! {

use crate::fixed::FP_ONE;
use crate::fixed::fp_div;
use crate::fixed::fp_div_exec;
use crate::fixed::fp_mul;
use crate::fixed::fp_mul_exec;
use crate::fixed::int_abs;
use crate::fixed::lemma_fp_div_bound;
use crate::fixed::lemma_trunc_div_bound;

/// Iteration cap at startup and after a reset.
pub const DEFAULT_ITER: u16 = 256;

/// Smallest iteration cap the controller may reach.
pub const MIN_ITER: u16 = 16;

/// Largest iteration cap the controller may reach.
pub const MAX_ITER: u16 = 8192;

/// Magnitude bound on window bounds and pan offset: 256.0, far beyond the
/// region where the set lives, and small enough that every coordinate the
/// renderer derives stays within the kernel's domain.
pub const FP_COORD_MAX: i64 = 0x100_0000_0000;

/// Smallest zoom factor, 2^-16: below that the fixed-point grid is coarser
/// than a pixel.
pub const FP_ZOOM_MIN: i64 = 0x1_0000;

/// Largest zoom factor, 2^14.
pub const FP_ZOOM_MAX: i64 = 0x4000_0000_0000;

/// Largest elapsed-time step a camera move accepts: 16 seconds.
pub const FP_DT_MAX: i64 = 0x10_0000_0000;

/// Pan speed in plane units per second: 0.6.
pub const FP_MOVE_SPEED: i64 = 2576980377;

/// Zoom growth per second: 0.4.
pub const FP_ZOOM_SPEED: i64 = 1717986918;

/// The immutable-per-frame rendering parameters.
#[derive(Clone, Copy, Debug, PartialEq, Eq, Structural)]
pub struct MandelbrotRenderParams {
    pub min_x_coord: i64,
    pub max_x_coord: i64,
    pub min_y_coord: i64,
    pub max_y_coord: i64,
    pub offset_x: i64,
    pub offset_y: i64,
    pub zoom: i64,
    pub max_iter: u16,
    pub width: u16,
    pub height: u16,
}

/// A coordinate pulled back into the representable window.
pub open spec fn clamp_coord(v: int) -> i64 {
    if v < -(FP_COORD_MAX as int) {
        (-FP_COORD_MAX) as i64
    } else if v > FP_COORD_MAX as int {
        FP_COORD_MAX
    } else {
        v as i64
    }
}

/// A zoom factor pulled back into its admissible range.
pub open spec fn clamp_zoom(v: int) -> i64 {
    if v < FP_ZOOM_MIN as int {
        FP_ZOOM_MIN
    } else if v > FP_ZOOM_MAX as int {
        FP_ZOOM_MAX
    } else {
        v as i64
    }
}

/// How far one pan of duration `dt` moves the offset: dt * speed / zoom.
pub open spec fn pan_step(dt: int, zoom: int) -> int {
    fp_div(fp_mul(dt, FP_MOVE_SPEED as int), zoom)
}

/// How much one zoom of duration `dt` grows the factor: zoom * dt * speed.
pub open spec fn zoom_step(dt: int, zoom: int) -> int {
    fp_mul(zoom, fp_mul(dt, FP_ZOOM_SPEED as int))
}

/// The doubled iteration cap, reclamped.
pub open spec fn doubled_cap(m: int) -> u16 {
    if 2 * m > MAX_ITER as int {
        MAX_ITER
    } else {
        (2 * m) as u16
    }
}

/// The halved iteration cap, reclamped.
pub open spec fn halved_cap(m: int) -> u16 {
    if m / 2 < MIN_ITER as int {
        MIN_ITER
    } else {
        (m / 2) as u16
    }
}

/// The parameters at startup: the window [-2, 1] x [-1, 1], no pan, unit
/// zoom, the default iteration cap.
pub open spec fn default_view(width: u16, height: u16) -> MandelbrotRenderParams {
    MandelbrotRenderParams {
        min_x_coord: (-2 * FP_ONE) as i64,
        max_x_coord: FP_ONE,
        min_y_coord: (-FP_ONE) as i64,
        max_y_coord: FP_ONE,
        offset_x: 0,
        offset_y: 0,
        zoom: FP_ONE,
        max_iter: DEFAULT_ITER,
        width,
        height,
    }
}

impl MandelbrotRenderParams {
    /// The invariant every frame renders under: positive dimensions, the cap
    /// within its clamped range, and all fixed-point fields within the ranges
    /// the representation can drive through the renderer without overflow.
    pub open spec fn wf(self) -> bool {
        &&& 1 <= self.width
        &&& 1 <= self.height
        &&& MIN_ITER <= self.max_iter <= MAX_ITER
        &&& FP_ZOOM_MIN <= self.zoom <= FP_ZOOM_MAX
        &&& -FP_COORD_MAX <= self.min_x_coord <= FP_COORD_MAX
        &&& -FP_COORD_MAX <= self.max_x_coord <= FP_COORD_MAX
        &&& -FP_COORD_MAX <= self.min_y_coord <= FP_COORD_MAX
        &&& -FP_COORD_MAX <= self.max_y_coord <= FP_COORD_MAX
        &&& -FP_COORD_MAX <= self.offset_x <= FP_COORD_MAX
        &&& -FP_COORD_MAX <= self.offset_y <= FP_COORD_MAX
    }

    /// A fresh parameter snapshot for an output of the given dimensions.
    pub fn new(width: usize, height: usize) -> (p: Self)
        requires
            1 <= width <= u16::MAX,
            1 <= height <= u16::MAX,
        ensures
            p == default_view(width as u16, height as u16),
            p.wf(),
    {
        MandelbrotRenderParams {
            min_x_coord: -2 * FP_ONE,
            max_x_coord: FP_ONE,
            min_y_coord: -FP_ONE,
            max_y_coord: FP_ONE,
            offset_x: 0,
            offset_y: 0,
            zoom: FP_ONE,
            max_iter: DEFAULT_ITER,
            width: width as u16,
            height: height as u16,
        }
    }

    /// Pans the view left: the offset moves by dt * speed / zoom.
    pub fn pan_left(&mut self, dt: i64)
        requires
            old(self).wf(),
            0 <= dt <= FP_DT_MAX,
        ensures
            *final(self) == (MandelbrotRenderParams {
                offset_x: clamp_coord(
                    old(self).offset_x - pan_step(dt as int, old(self).zoom as int),
                ),
                ..*old(self)
            }),
            final(self).wf(),
    {
        let step: i64 = pan_step_exec(dt, self.zoom);
        self.offset_x = clamp_coord_exec(self.offset_x - step);
    }

    /// Pans the view right.
    pub fn pan_right(&mut self, dt: i64)
        requires
            old(self).wf(),
            0 <= dt <= FP_DT_MAX,
        ensures
            *final(self) == (MandelbrotRenderParams {
                offset_x: clamp_coord(
                    old(self).offset_x + pan_step(dt as int, old(self).zoom as int),
                ),
                ..*old(self)
            }),
            final(self).wf(),
    {
        let step: i64 = pan_step_exec(dt, self.zoom);
        self.offset_x = clamp_coord_exec(self.offset_x + step);
    }

    /// Pans the view up.
    pub fn pan_up(&mut self, dt: i64)
        requires
            old(self).wf(),
            0 <= dt <= FP_DT_MAX,
        ensures
            *final(self) == (MandelbrotRenderParams {
                offset_y: clamp_coord(
                    old(self).offset_y - pan_step(dt as int, old(self).zoom as int),
                ),
                ..*old(self)
            }),
            final(self).wf(),
    {
        let step: i64 = pan_step_exec(dt, self.zoom);
        self.offset_y = clamp_coord_exec(self.offset_y - step);
    }

    /// Pans the view down.
    pub fn pan_down(&mut self, dt: i64)
        requires
            old(self).wf(),
            0 <= dt <= FP_DT_MAX,
        ensures
            *final(self) == (MandelbrotRenderParams {
                offset_y: clamp_coord(
                    old(self).offset_y + pan_step(dt as int, old(self).zoom as int),
                ),
                ..*old(self)
            }),
            final(self).wf(),
    {
        let step: i64 = pan_step_exec(dt, self.zoom);
        self.offset_y = clamp_coord_exec(self.offset_y + step);
    }

    /// Zooms in: the factor grows by zoom * dt * speed, reclamped.
    pub fn zoom_in(&mut self, dt: i64)
        requires
            old(self).wf(),
            0 <= dt <= FP_DT_MAX,
        ensures
            *final(self) == (MandelbrotRenderParams {
                zoom: clamp_zoom(old(self).zoom + zoom_step(dt as int, old(self).zoom as int)),
                ..*old(self)
            }),
            final(self).wf(),
    {
        let growth: i64 = zoom_step_exec(dt, self.zoom);
        self.zoom = clamp_zoom_exec(self.zoom + growth);
    }

    /// Zooms out: the factor shrinks by zoom * dt * speed, reclamped.
    pub fn zoom_out(&mut self, dt: i64)
        requires
            old(self).wf(),
            0 <= dt <= FP_DT_MAX,
        ensures
            *final(self) == (MandelbrotRenderParams {
                zoom: clamp_zoom(old(self).zoom - zoom_step(dt as int, old(self).zoom as int)),
                ..*old(self)
            }),
            final(self).wf(),
    {
        let growth: i64 = zoom_step_exec(dt, self.zoom);
        self.zoom = clamp_zoom_exec(self.zoom - growth);
    }

    /// Doubles the iteration cap, clamped above.
    pub fn increase_iterations(&mut self)
        requires
            old(self).wf(),
        ensures
            *final(self) == (MandelbrotRenderParams {
                max_iter: doubled_cap(old(self).max_iter as int),
                ..*old(self)
            }),
            final(self).wf(),
    {
        let doubled: u16 = self.max_iter * 2;
        self.max_iter = if doubled > MAX_ITER {
            MAX_ITER
        } else {
            doubled
        };
    }

    /// Halves the iteration cap, clamped below.
    pub fn decrease_iterations(&mut self)
        requires
            old(self).wf(),
        ensures
            *final(self) == (MandelbrotRenderParams {
                max_iter: halved_cap(old(self).max_iter as int),
                ..*old(self)
            }),
            final(self).wf(),
    {
        let halved: u16 = self.max_iter / 2;
        self.max_iter = if halved < MIN_ITER {
            MIN_ITER
        } else {
            halved
        };
    }

    /// Restores the camera defaults: no pan, unit zoom, the default cap.
    pub fn reset(&mut self)
        requires
            old(self).wf(),
        ensures
            *final(self) == (MandelbrotRenderParams {
                offset_x: 0,
                offset_y: 0,
                zoom: FP_ONE,
                max_iter: DEFAULT_ITER,
                ..*old(self)
            }),
            final(self).wf(),
    {
        self.offset_x = 0;
        self.offset_y = 0;
        self.zoom = FP_ONE;
        self.max_iter = DEFAULT_ITER;
    }
}

/// Clamp into the coordinate window.
fn clamp_coord_exec(v: i64) -> (r: i64)
    ensures
        r == clamp_coord(v as int),
{
    if v < -FP_COORD_MAX {
        -FP_COORD_MAX
    } else if v > FP_COORD_MAX {
        FP_COORD_MAX
    } else {
        v
    }
}

/// Clamp into the zoom range.
fn clamp_zoom_exec(v: i64) -> (r: i64)
    ensures
        r == clamp_zoom(v as int),
{
    if v < FP_ZOOM_MIN {
        FP_ZOOM_MIN
    } else if v > FP_ZOOM_MAX {
        FP_ZOOM_MAX
    } else {
        v
    }
}

/// dt * speed / zoom, with its magnitude bounded for the caller.
fn pan_step_exec(dt: i64, zoom: i64) -> (r: i64)
    requires
        0 <= dt <= FP_DT_MAX,
        FP_ZOOM_MIN <= zoom <= FP_ZOOM_MAX,
    ensures
        r == pan_step(dt as int, zoom as int),
        int_abs(r as int) <= 0x10_0000_0000_0000_0000int / (FP_ZOOM_MIN as int),
{
    let scaled: i64 = fp_mul_exec(dt, FP_MOVE_SPEED);
    proof {
        lemma_trunc_div_bound(
            (dt as int) * (FP_MOVE_SPEED as int),
            FP_ONE as int,
            0x10_0000_0000_0000_0000int,
        );
        lemma_fp_div_bound(
            scaled as int,
            zoom as int,
            0x10_0000_0000int,
            FP_ZOOM_MIN as int,
        );
    }
    fp_div_exec(scaled, zoom)
}

/// zoom * (dt * speed), with its magnitude bounded for the caller.
fn zoom_step_exec(dt: i64, zoom: i64) -> (r: i64)
    requires
        0 <= dt <= FP_DT_MAX,
        FP_ZOOM_MIN <= zoom <= FP_ZOOM_MAX,
    ensures
        r == zoom_step(dt as int, zoom as int),
        int_abs(r as int) <= 0x4_0000_0000_0000_0000_0000int / (FP_ONE as int),
{
    let scaled: i64 = fp_mul_exec(dt, FP_ZOOM_SPEED);
    proof {
        lemma_trunc_div_bound(
            (dt as int) * (FP_ZOOM_SPEED as int),
            FP_ONE as int,
            0x10_0000_0000_0000_0000int,
        );
        assert(-0x4_0000_0000_0000_0000_0000int <= (zoom as int) * (scaled as int)
            <= 0x4_0000_0000_0000_0000_0000int) by (nonlinear_arith)
            requires
                0 <= zoom <= 0x4000_0000_0000int,
                -0x10_0000_0000int <= scaled <= 0x10_0000_0000int,
        ;
        lemma_trunc_div_bound(
            (zoom as int) * (scaled as int),
            FP_ONE as int,
            0x4_0000_0000_0000_0000_0000int,
        );
    }
    fp_mul_exec(zoom, scaled)
}

} // verus!
