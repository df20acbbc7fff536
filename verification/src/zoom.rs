//! Zoom control: discrete pinch factors and quantized scroll steps, every
//! mutation clamped into the valid scale range.
//!
//! Scales and pinch factors are in hundredths. A scroll step is coarse
//! (0.10, rounded to tenths) above scale 1.00 and fine (0.01, rounded to
//! hundredths) at or below it, so repeated scrolling cannot drift.

use vstd::prelude::*;
use crate::num::{div_trunc, round_to_multiple, exec_div_trunc, exec_round_to_multiple};
use crate::{SCALE_MIN, SCALE_MAX, clamp_scale, spec_clamp_scale};

verus! {

/// A pinch factor at or above this, in hundredths, drives every valid
/// scale to the top of the range, whatever the scale was.
pub const PINCH_SATURATION: i64 = 10_000;

/// One zoom input delivered within a frame.
#[derive(Clone, Copy, PartialEq, Eq, Structural, Debug)]
pub enum ZoomEvent {
    /// A pinch or gesture zoom by a multiplicative factor in hundredths.
    Pinch { factor: i64 },
    /// A vertical scroll; only the sign of the delta matters.
    Scroll { delta: i64 },
}

impl ZoomEvent {
    /// An event is well formed when a pinch factor is positive, as a
    /// multiplicative zoom gesture always is.
    pub open spec fn wf(self) -> bool {
        match self {
            ZoomEvent::Pinch { factor } => 0 < factor,
            ZoomEvent::Scroll { delta: _ } => true,
        }
    }
}

/// The scale after a pinch: multiplied by the factor, then clamped.
pub open spec fn spec_apply_pinch(scale: int, factor: int) -> int {
    spec_clamp_scale(div_trunc(scale * factor, 100))
}

/// The signed scroll step in hundredths: coarse above scale 1.00, fine at
/// or below it.
pub open spec fn spec_scroll_step(scale: int, delta: int) -> int {
    if scale > 100 {
        if delta > 0 {
            10
        } else {
            -10
        }
    } else {
        if delta > 0 {
            1
        } else {
            -1
        }
    }
}

/// The scale after a scroll: stepped, re-quantized to the step's
/// granularity (halves away from zero), then clamped. A zero delta
/// leaves the scale alone.
pub open spec fn spec_apply_scroll(scale: int, delta: int) -> int {
    if delta == 0 {
        scale
    } else {
        let granularity = if scale > 100 {
            10
        } else {
            1
        };
        spec_clamp_scale(round_to_multiple(scale + spec_scroll_step(scale, delta), granularity))
    }
}

/// The scale after one zoom event.
pub open spec fn spec_apply_zoom_event(scale: int, ev: ZoomEvent) -> int {
    match ev {
        ZoomEvent::Pinch { factor } => spec_apply_pinch(scale, factor as int),
        ZoomEvent::Scroll { delta } => spec_apply_scroll(scale, delta as int),
    }
}

/// The scale after a whole batch of zoom events, applied in order.
pub open spec fn spec_apply_zoom_events(scale: int, evs: Seq<ZoomEvent>) -> int
    decreases evs.len(),
{
    if evs.len() == 0 {
        scale
    } else {
        spec_apply_zoom_events(spec_apply_zoom_event(scale, evs[0]), evs.drop_first())
    }
}

/// Applies a pinch factor to the scale. A factor large enough to leave
/// the valid range in any case saturates to the largest scale without
/// the product ever being formed.
pub fn apply_pinch(scale: i64, factor: i64) -> (r: i64)
    requires
        SCALE_MIN <= scale <= SCALE_MAX,
        0 < factor,
    ensures
        r == spec_apply_pinch(scale as int, factor as int),
        SCALE_MIN <= r <= SCALE_MAX,
{
    if factor >= PINCH_SATURATION {
        proof {
            vstd::arithmetic::mul::lemma_mul_inequality(
                SCALE_MIN as int,
                scale as int,
                factor as int,
            );
            vstd::arithmetic::mul::lemma_mul_inequality(
                PINCH_SATURATION as int,
                factor as int,
                SCALE_MIN as int,
            );
            vstd::arithmetic::mul::lemma_mul_is_commutative(SCALE_MIN as int, factor as int);
            vstd::arithmetic::mul::lemma_mul_is_commutative(PINCH_SATURATION as int, SCALE_MIN as int);
            crate::viewport::lemma_div_trunc_ordered(
                SCALE_MIN as int * PINCH_SATURATION as int,
                scale as int * factor as int,
                100,
            );
        }
        SCALE_MAX
    } else {
        proof {
            crate::num::lemma_mul_bounds_abs(
                scale as int,
                factor as int,
                SCALE_MAX as int,
                PINCH_SATURATION as int,
            );
        }
        let product: i64 = scale * factor;
        clamp_scale(exec_div_trunc(product, 100))
    }
}

/// Applies a scroll delta to the scale.
pub fn apply_scroll(scale: i64, delta: i64) -> (r: i64)
    requires
        SCALE_MIN <= scale <= SCALE_MAX,
    ensures
        r == spec_apply_scroll(scale as int, delta as int),
        SCALE_MIN <= r <= SCALE_MAX,
{
    if delta == 0 {
        scale
    } else {
        let step: i64 = if scale > 100 {
            if delta > 0 { 10 } else { -10 }
        } else {
            if delta > 0 { 1 } else { -1 }
        };
        let granularity: i64 = if scale > 100 {
            10
        } else {
            1
        };
        clamp_scale(exec_round_to_multiple(scale + step, granularity))
    }
}

/// Applies one zoom event to the scale.
pub fn apply_zoom_event(scale: i64, ev: &ZoomEvent) -> (r: i64)
    requires
        SCALE_MIN <= scale <= SCALE_MAX,
        ev.wf(),
    ensures
        r == spec_apply_zoom_event(scale as int, *ev),
        SCALE_MIN <= r <= SCALE_MAX,
{
    match ev {
        ZoomEvent::Pinch { factor } => apply_pinch(scale, *factor),
        ZoomEvent::Scroll { delta } => apply_scroll(scale, *delta),
    }
}

/// Applies a frame's zoom events in order.
pub fn apply_zoom_batch(scale: i64, evs: &Vec<ZoomEvent>) -> (r: i64)
    requires
        SCALE_MIN <= scale <= SCALE_MAX,
        forall|i: int| 0 <= i < evs@.len() ==> (#[trigger] evs@[i]).wf(),
    ensures
        r == spec_apply_zoom_events(scale as int, evs@),
        SCALE_MIN <= r <= SCALE_MAX,
{
    let mut acc: i64 = scale;
    let mut i: usize = 0;
    proof {
        assert(evs@.skip(0) =~= evs@);
    }
    while i < evs.len()
        invariant
            0 <= i <= evs@.len(),
            SCALE_MIN <= acc <= SCALE_MAX,
            forall|j: int| 0 <= j < evs@.len() ==> (#[trigger] evs@[j]).wf(),
            spec_apply_zoom_events(acc as int, evs@.skip(i as int)) == spec_apply_zoom_events(
                scale as int,
                evs@,
            ),
        decreases evs@.len() - i,
    {
        proof {
            assert(evs@.skip(i as int)[0] == evs@[i as int]);
            assert(evs@.skip(i as int).drop_first() =~= evs@.skip(i as int + 1));
        }
        acc = apply_zoom_event(acc, &evs[i]);
        i = i + 1;
    }
    proof {
        assert(evs@.skip(evs@.len() as int) =~= Seq::<ZoomEvent>::empty());
    }
    acc
}

/// However a batch of zoom events mutates the scale, the result stays in
/// the valid range: every pinch and every scroll clamps, and an empty
/// batch leaves an already valid scale untouched.
pub proof fn lemma_zoom_scale_stays_clamped(scale: int, evs: Seq<ZoomEvent>)
    requires
        SCALE_MIN <= scale <= SCALE_MAX,
    ensures
        SCALE_MIN <= spec_apply_zoom_events(scale, evs) <= SCALE_MAX,
    decreases evs.len(),
{
    if evs.len() > 0 {
        lemma_zoom_scale_stays_clamped(spec_apply_zoom_event(scale, evs[0]), evs.drop_first());
    }
}

} // verus!
