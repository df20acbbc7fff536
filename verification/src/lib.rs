//! Core of an interactive 2D function plotter: the viewport mapping between
//! world and screen coordinates, quantized zoom control, axis tick planning
//! with label formatting, and sampling of a scalar function into continuous
//! drawable segments.
//!
//! All quantities are fixed-point integers: screen lengths in thousandths of
//! a pixel, world lengths in thousandths of a world unit, the zoom scale in
//! hundredths, and formatted label values in ten-thousandths. A host layer
//! converts between these and whatever number type its toolkit uses, owns
//! the event loop and the renderer, and evaluates compiled formulas,
//! handing each outcome back as a plain value.
//!
//! - [`viewport`]: the world/screen mapping and the visible world bounds.
//! - [`zoom`]: pinch and quantized scroll mutations of the scale.
//! - [`ticks`]: axis mark positions, label values and their formatting.
//! - [`sampler`]: the sample grid and segmentation of outcomes.
//! - [`model`]: the entry list, its per-frame upkeep, and input routing.
//! - [`num`]: the fixed-point arithmetic the other modules share.

use vstd::prelude::*;

pub mod num;
pub mod viewport;
pub mod zoom;
pub mod ticks;
pub mod sampler;
pub mod model;

verus! {

/// Smallest allowed zoom scale, in hundredths (0.10).
pub const SCALE_MIN: i64 = 10;

/// Largest allowed zoom scale, in hundredths (10.00).
pub const SCALE_MAX: i64 = 1000;

/// Clamps a scale given in hundredths into the valid range.
pub fn clamp_scale(s: i64) -> (r: i64)
    ensures
        r == spec_clamp_scale(s as int),
        SCALE_MIN <= r <= SCALE_MAX,
{
    if s < SCALE_MIN {
        SCALE_MIN
    } else if s > SCALE_MAX {
        SCALE_MAX
    } else {
        s
    }
}

/// The clamped scale: `s` pulled into `[SCALE_MIN, SCALE_MAX]`.
pub open spec fn spec_clamp_scale(s: int) -> int {
    if s < SCALE_MIN as int {
        SCALE_MIN as int
    } else if s > SCALE_MAX as int {
        SCALE_MAX as int
    } else {
        s
    }
}

} // verus!

