//! The viewport: zoom scale plus pan offset, and the mapping it induces
//! between world coordinates and screen coordinates.
//!
//! Screen lengths are in thousandths of a pixel, world lengths in
//! thousandths of a world unit, and the scale in hundredths. One world unit
//! covers `25 / scale` pixels, and the screen y axis points down while the
//! world y axis points up.

use vstd::prelude::*;
use crate::num::{div_trunc, exec_div_trunc, lemma_fundamental_div_rem_trunc};
use crate::{SCALE_MIN, SCALE_MAX};

verus! {

/// Bound on canvas coordinates and pan offsets, in thousandths of a pixel.
pub const COORD_LIMIT: i64 = 1_000_000_000_000;

/// Bound on world coordinates the mapping accepts, in thousandths of a
/// world unit; every visible world bound stays below it.
pub const WORLD_LIMIT: i64 = 1_000_000_000_000;

/// A screen-space vector or point, in thousandths of a pixel.
#[derive(Clone, Copy, PartialEq, Eq, Structural, Debug)]
pub struct ScreenVec {
    pub x: i64,
    pub y: i64,
}

/// A world-space point, in thousandths of a world unit.
#[derive(Clone, Copy, PartialEq, Eq, Structural, Debug)]
pub struct WorldPoint {
    pub x: i64,
    pub y: i64,
}

/// The canvas rectangle on screen, in thousandths of a pixel.
#[derive(Clone, Copy, PartialEq, Eq, Structural, Debug)]
pub struct CanvasRect {
    pub left: i64,
    pub top: i64,
    pub right: i64,
    pub bottom: i64,
}

impl CanvasRect {
    /// A canvas is well formed when its corners are ordered and bounded.
    pub open spec fn wf(self) -> bool {
        &&& -COORD_LIMIT <= self.left <= self.right <= COORD_LIMIT
        &&& -COORD_LIMIT <= self.top <= self.bottom <= COORD_LIMIT
    }

    /// Horizontal center of the canvas.
    pub open spec fn spec_center_x(self) -> int {
        div_trunc(self.left + self.right, 2)
    }

    /// Vertical center of the canvas.
    pub open spec fn spec_center_y(self) -> int {
        div_trunc(self.top + self.bottom, 2)
    }

    /// Width of the canvas.
    pub open spec fn spec_width(self) -> int {
        self.right - self.left
    }

    /// Height of the canvas.
    pub open spec fn spec_height(self) -> int {
        self.bottom - self.top
    }

    /// Horizontal center of the canvas.
    pub fn center_x(&self) -> (r: i64)
        requires
            self.wf(),
        ensures
            r == self.spec_center_x(),
            -COORD_LIMIT <= r <= COORD_LIMIT,
    {
        exec_div_trunc(self.left + self.right, 2)
    }

    /// Vertical center of the canvas.
    pub fn center_y(&self) -> (r: i64)
        requires
            self.wf(),
        ensures
            r == self.spec_center_y(),
            -COORD_LIMIT <= r <= COORD_LIMIT,
    {
        exec_div_trunc(self.top + self.bottom, 2)
    }
}

/// The visible world range of a viewport over a canvas, in thousandths of
/// a world unit.
#[derive(Clone, Copy, PartialEq, Eq, Structural, Debug)]
pub struct WorldBounds {
    pub x_min: i64,
    pub x_max: i64,
    pub y_min: i64,
    pub y_max: i64,
}

/// Zoom scale (hundredths) and pan offset (thousandths of a pixel).
#[derive(Clone, Copy, PartialEq, Eq, Structural, Debug)]
pub struct Viewport {
    pub scale: i64,
    pub offset: ScreenVec,
}

impl Viewport {
    /// A viewport is well formed when its scale is clamped and its offset
    /// bounded.
    pub open spec fn wf(self) -> bool {
        &&& SCALE_MIN <= self.scale <= SCALE_MAX
        &&& -COORD_LIMIT <= self.offset.x <= COORD_LIMIT
        &&& -COORD_LIMIT <= self.offset.y <= COORD_LIMIT
    }

    /// The initial view: scale one, no pan.
    pub fn new() -> (r: Viewport)
        ensures
            r.wf(),
            r.scale == 100,
            r.offset.x == 0,
            r.offset.y == 0,
    {
        Viewport { scale: 100, offset: ScreenVec { x: 0, y: 0 } }
    }

    /// Returns the view to scale one and zero offset, whatever it held.
    pub fn reset(&mut self)
        ensures
            final(self).wf(),
            final(self).scale == 100,
            final(self).offset.x == 0,
            final(self).offset.y == 0,
    {
        self.scale = 100;
        self.offset = ScreenVec { x: 0, y: 0 };
    }

    /// Shifts the pan offset by a drag delta, unscaled.
    pub fn pan(&mut self, dx: i64, dy: i64)
        requires
            old(self).wf(),
            -COORD_LIMIT <= old(self).offset.x + dx <= COORD_LIMIT,
            -COORD_LIMIT <= old(self).offset.y + dy <= COORD_LIMIT,
        ensures
            final(self).wf(),
            final(self).scale == old(self).scale,
            final(self).offset.x == old(self).offset.x + dx,
            final(self).offset.y == old(self).offset.y + dy,
    {
        self.offset = ScreenVec { x: self.offset.x + dx, y: self.offset.y + dy };
    }

    /// Screen x of a world x: center plus `x * 25 / scale` pixels plus pan.
    pub open spec fn spec_to_screen_x(self, canvas: CanvasRect, wx: int) -> int {
        canvas.spec_center_x() + div_trunc(wx * 2500, self.scale as int) + self.offset.x
    }

    /// Screen y of a world y: center minus `y * 25 / scale` pixels plus
    /// pan; the world y axis points up, the screen y axis down.
    pub open spec fn spec_to_screen_y(self, canvas: CanvasRect, wy: int) -> int {
        canvas.spec_center_y() - div_trunc(wy * 2500, self.scale as int) + self.offset.y
    }

    /// Maps a world point onto the screen.
    pub fn to_screen(&self, canvas: &CanvasRect, p: WorldPoint) -> (r: ScreenVec)
        requires
            self.wf(),
            canvas.wf(),
            -WORLD_LIMIT <= p.x <= WORLD_LIMIT,
            -WORLD_LIMIT <= p.y <= WORLD_LIMIT,
        ensures
            r.x == self.spec_to_screen_x(*canvas, p.x as int),
            r.y == self.spec_to_screen_y(*canvas, p.y as int),
    {
        let cx: i64 = canvas.center_x();
        let cy: i64 = canvas.center_y();
        let sx: i64 = exec_div_trunc(p.x * 2500, self.scale);
        let sy: i64 = exec_div_trunc(p.y * 2500, self.scale);
        proof {
            lemma_fundamental_div_rem_trunc(p.x as int * 2500, self.scale as int);
            lemma_fundamental_div_rem_trunc(p.y as int * 2500, self.scale as int);
            lemma_div_trunc_magnitude(p.x as int * 2500, self.scale as int);
            lemma_div_trunc_magnitude(p.y as int * 2500, self.scale as int);
        }
        ScreenVec { x: cx + sx + self.offset.x, y: cy - sy + self.offset.y }
    }

    /// World x that a screen x maps back to under the inverse of
    /// `spec_to_screen_x`.
    pub open spec fn spec_screen_to_world_x(self, canvas: CanvasRect, sx: int) -> int {
        div_trunc((sx - canvas.spec_center_x() - self.offset.x) * self.scale, 2500)
    }

    /// World y that a screen y maps back to under the inverse of
    /// `spec_to_screen_y`.
    pub open spec fn spec_screen_to_world_y(self, canvas: CanvasRect, sy: int) -> int {
        div_trunc((canvas.spec_center_y() + self.offset.y - sy) * self.scale, 2500)
    }

    /// The world ranges visible through this viewport over a canvas:
    /// the screen mapping inverted at the canvas edges.
    pub open spec fn spec_visible_world_bounds(self, canvas: CanvasRect) -> WorldBounds {
        let half_w = div_trunc(canvas.spec_width(), 2);
        let half_h = div_trunc(canvas.spec_height(), 2);
        WorldBounds {
            x_min: div_trunc((-half_w - self.offset.x) * self.scale, 2500) as i64,
            x_max: div_trunc((half_w - self.offset.x) * self.scale, 2500) as i64,
            y_min: div_trunc((-(half_h - self.offset.y)) * self.scale, 2500) as i64,
            y_max: div_trunc((half_h + self.offset.y) * self.scale, 2500) as i64,
        }
    }

    /// Computes the visible world bounds over a canvas.
    pub fn visible_world_bounds(&self, canvas: &CanvasRect) -> (r: WorldBounds)
        requires
            self.wf(),
            canvas.wf(),
        ensures
            r == self.spec_visible_world_bounds(*canvas),
            -WORLD_LIMIT <= r.x_min <= r.x_max <= WORLD_LIMIT,
            -WORLD_LIMIT <= r.y_min <= r.y_max <= WORLD_LIMIT,
    {
        let half_w: i64 = exec_div_trunc(canvas.right - canvas.left, 2);
        let half_h: i64 = exec_div_trunc(canvas.bottom - canvas.top, 2);
        proof {
            vstd::arithmetic::div_mod::lemma_div_pos_is_pos(canvas.spec_width(), 2);
            vstd::arithmetic::div_mod::lemma_div_is_ordered(
                canvas.spec_width(),
                2 * COORD_LIMIT as int,
                2,
            );
            vstd::arithmetic::div_mod::lemma_div_pos_is_pos(canvas.spec_height(), 2);
            vstd::arithmetic::div_mod::lemma_div_is_ordered(
                canvas.spec_height(),
                2 * COORD_LIMIT as int,
                2,
            );
        }
        let v1: i64 = -half_w - self.offset.x;
        let v2: i64 = half_w - self.offset.x;
        let v3: i64 = -(half_h - self.offset.y);
        let v4: i64 = half_h + self.offset.y;
        proof {
            let s = self.scale as int;
            let vb: int = 2 * COORD_LIMIT as int;
            crate::num::lemma_mul_bounds_abs(v1 as int, s, vb, 1000);
            crate::num::lemma_mul_bounds_abs(v2 as int, s, vb, 1000);
            crate::num::lemma_mul_bounds_abs(v3 as int, s, vb, 1000);
            crate::num::lemma_mul_bounds_abs(v4 as int, s, vb, 1000);
        }
        let t1: i64 = v1 * self.scale;
        let t2: i64 = v2 * self.scale;
        let t3: i64 = v3 * self.scale;
        let t4: i64 = v4 * self.scale;
        let x_min: i64 = exec_div_trunc(t1, 2500);
        let x_max: i64 = exec_div_trunc(t2, 2500);
        let y_min: i64 = exec_div_trunc(t3, 2500);
        let y_max: i64 = exec_div_trunc(t4, 2500);
        proof {
            let s = self.scale as int;
            let tb: int = 2000 * COORD_LIMIT as int;
            lemma_div_trunc_ordered(-tb, t1 as int, 2500);
            lemma_div_trunc_ordered(t1 as int, tb, 2500);
            lemma_div_trunc_ordered(-tb, t2 as int, 2500);
            lemma_div_trunc_ordered(t2 as int, tb, 2500);
            lemma_div_trunc_ordered(-tb, t3 as int, 2500);
            lemma_div_trunc_ordered(t3 as int, tb, 2500);
            lemma_div_trunc_ordered(-tb, t4 as int, 2500);
            lemma_div_trunc_ordered(t4 as int, tb, 2500);
            vstd::arithmetic::mul::lemma_mul_inequality(v1 as int, v2 as int, s);
            vstd::arithmetic::mul::lemma_mul_inequality(v3 as int, v4 as int, s);
            lemma_div_trunc_ordered(t1 as int, t2 as int, 2500);
            lemma_div_trunc_ordered(t3 as int, t4 as int, 2500);
        }
        WorldBounds { x_min, x_max, y_min, y_max }
    }
}

/// The magnitude of a truncating quotient never exceeds the magnitude of
/// the dividend divided by a positive divisor's lower bound of one; more
/// precisely, `|a / b| <= |a|`.
pub proof fn lemma_div_trunc_magnitude(a: int, b: int)
    requires
        b > 0,
    ensures
        a >= 0 ==> 0 <= div_trunc(a, b) <= a,
        a < 0 ==> a <= div_trunc(a, b) <= 0,
{
    if a >= 0 {
        vstd::arithmetic::div_mod::lemma_div_pos_is_pos(a, b);
        vstd::arithmetic::div_mod::lemma_div_nonincreasing(a, b);
    } else {
        vstd::arithmetic::div_mod::lemma_div_pos_is_pos(-a, b);
        vstd::arithmetic::div_mod::lemma_div_nonincreasing(-a, b);
    }
}

/// When a positive divisor divides the dividend exactly, the truncating
/// quotient times the divisor gives the dividend back.
pub proof fn lemma_div_trunc_exact(a: int, d: int)
    requires
        d > 0,
        a % d == 0,
    ensures
        d * div_trunc(a, d) == a,
{
    lemma_fundamental_div_rem_trunc(a, d);
    if a < 0 {
        vstd::arithmetic::div_mod::lemma_fundamental_div_mod(a, d);
        vstd::arithmetic::mul::lemma_mul_unary_negation(d, a / d);
        vstd::arithmetic::mul::lemma_mul_is_commutative(-(a / d), d);
        vstd::arithmetic::div_mod::lemma_mod_multiples_basic(-(a / d), d);
    }
}

/// `to_screen` and the mapping that `visible_world_bounds` derives from
/// (screen minus center minus pan, scaled back to world units) are mutual
/// inverses: a world point whose screen image lands exactly on a
/// thousandth of a pixel maps back to itself on both axes.
pub proof fn lemma_to_screen_round_trip(vp: Viewport, canvas: CanvasRect, p: WorldPoint)
    requires
        vp.wf(),
        canvas.wf(),
        -WORLD_LIMIT <= p.x <= WORLD_LIMIT,
        -WORLD_LIMIT <= p.y <= WORLD_LIMIT,
        (p.x as int * 2500) % (vp.scale as int) == 0,
        (p.y as int * 2500) % (vp.scale as int) == 0,
    ensures
        vp.spec_screen_to_world_x(canvas, vp.spec_to_screen_x(canvas, p.x as int)) == p.x,
        vp.spec_screen_to_world_y(canvas, vp.spec_to_screen_y(canvas, p.y as int)) == p.y,
{
    let s = vp.scale as int;
    let u = div_trunc(p.x as int * 2500, s);
    let w = div_trunc(p.y as int * 2500, s);
    lemma_div_trunc_exact(p.x as int * 2500, s);
    lemma_div_trunc_exact(p.y as int * 2500, s);
    vstd::arithmetic::mul::lemma_mul_is_commutative(u, s);
    vstd::arithmetic::mul::lemma_mul_is_commutative(w, s);
    assert(u * s == p.x as int * 2500);
    assert(w * s == p.y as int * 2500);
    vstd::arithmetic::mul::lemma_mul_is_commutative(p.x as int, 2500);
    vstd::arithmetic::mul::lemma_mul_is_commutative(p.y as int, 2500);
    vstd::arithmetic::div_mod::lemma_mod_multiples_basic(p.x as int, 2500);
    vstd::arithmetic::div_mod::lemma_mod_multiples_basic(p.y as int, 2500);
    lemma_div_trunc_exact(p.x as int * 2500, 2500);
    lemma_div_trunc_exact(p.y as int * 2500, 2500);
    assert(vp.spec_to_screen_x(canvas, p.x as int) - canvas.spec_center_x() - vp.offset.x == u);
    assert(canvas.spec_center_y() + vp.offset.y - vp.spec_to_screen_y(canvas, p.y as int) == w);
}

/// The truncating quotient equals the flooring quotient or lies one
/// above it.
proof fn lemma_div_trunc_vs_floor(a: int, d: int)
    requires
        d > 0,
    ensures
        a / d <= div_trunc(a, d) <= a / d + 1,
{
    lemma_fundamental_div_rem_trunc(a, d);
    vstd::arithmetic::div_mod::lemma_fundamental_div_mod(a, d);
    vstd::arithmetic::div_mod::lemma_mod_division_less_than_divisor(a, d);
    let f = a / d;
    let t = div_trunc(a, d);
    vstd::arithmetic::mul::lemma_mul_is_distributive_sub(d, f, t);
    if f - t >= 1 {
        vstd::arithmetic::mul::lemma_mul_inequality(1, f - t, d);
        vstd::arithmetic::mul::lemma_mul_is_commutative(f - t, d);
        assert(false);
    }
    if f - t <= -2 {
        vstd::arithmetic::mul::lemma_mul_inequality(f - t, -2, d);
        vstd::arithmetic::mul::lemma_mul_is_commutative(f - t, d);
        assert(false);
    }
}

/// Dividing a near multiple of the divisor lands within one of the
/// multiplier.
proof fn lemma_div_trunc_near_multiple(w: int, e: int)
    requires
        -2500 < e < 2500,
    ensures
        w - 1 <= div_trunc(2500 * w + e, 2500) <= w + 1,
{
    lemma_div_trunc_vs_floor(2500 * w + e, 2500);
    if e >= 0 {
        vstd::arithmetic::div_mod::lemma_div_multiples_vanish_fancy(w, e, 2500);
    } else {
        vstd::arithmetic::div_mod::lemma_div_multiples_vanish_fancy(w - 1, e + 2500, 2500);
        assert(2500 * (w - 1) == 2500 * w - 2500) by {
            vstd::arithmetic::mul::lemma_mul_is_distributive_sub(2500, w, 1);
        };
    }
}

/// `to_screen` and the bounds-derived inverse mapping are mutual
/// inverses up to the mapping's resolution: for every viewport and every
/// world point, mapping to the screen and back lands within one
/// thousandth of a world unit of where it started, on both axes.
pub proof fn lemma_round_trip_within_tolerance(vp: Viewport, canvas: CanvasRect, p: WorldPoint)
    requires
        vp.wf(),
        canvas.wf(),
        -WORLD_LIMIT <= p.x <= WORLD_LIMIT,
        -WORLD_LIMIT <= p.y <= WORLD_LIMIT,
    ensures
        p.x - 1 <= vp.spec_screen_to_world_x(canvas, vp.spec_to_screen_x(canvas, p.x as int))
            <= p.x + 1,
        p.y - 1 <= vp.spec_screen_to_world_y(canvas, vp.spec_to_screen_y(canvas, p.y as int))
            <= p.y + 1,
{
    let s = vp.scale as int;
    let tx = p.x as int * 2500;
    let ty = p.y as int * 2500;
    let ux = div_trunc(tx, s);
    let uy = div_trunc(ty, s);
    lemma_fundamental_div_rem_trunc(tx, s);
    lemma_fundamental_div_rem_trunc(ty, s);
    let rx = crate::num::rem_trunc(tx, s);
    let ry = crate::num::rem_trunc(ty, s);
    assert(vp.spec_to_screen_x(canvas, p.x as int) - canvas.spec_center_x() - vp.offset.x == ux);
    assert(canvas.spec_center_y() + vp.offset.y - vp.spec_to_screen_y(canvas, p.y as int) == uy);
    vstd::arithmetic::mul::lemma_mul_is_commutative(ux, s);
    vstd::arithmetic::mul::lemma_mul_is_commutative(uy, s);
    assert(ux * s == 2500 * (p.x as int) + (-rx));
    assert(uy * s == 2500 * (p.y as int) + (-ry));
    lemma_div_trunc_near_multiple(p.x as int, -rx);
    lemma_div_trunc_near_multiple(p.y as int, -ry);
}

/// Truncating division by a positive divisor is monotone in the dividend.
pub proof fn lemma_div_trunc_ordered(a: int, b: int, d: int)
    requires
        a <= b,
        d > 0,
    ensures
        div_trunc(a, d) <= div_trunc(b, d),
{
    if a >= 0 {
        vstd::arithmetic::div_mod::lemma_div_is_ordered(a, b, d);
    } else if b >= 0 {
        vstd::arithmetic::div_mod::lemma_div_pos_is_pos(-a, d);
        vstd::arithmetic::div_mod::lemma_div_pos_is_pos(b, d);
    } else {
        vstd::arithmetic::div_mod::lemma_div_is_ordered(-b, -a, d);
    }
}

} // verus!
