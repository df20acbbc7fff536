use plotter_core::viewport::{CanvasRect, ScreenVec, Viewport, WorldPoint};

// Screen and world lengths are in thousandths; the scale is in hundredths.

fn square_canvas() -> CanvasRect {
    // A 500 by 500 pixel canvas with its corner at the origin.
    CanvasRect { left: 0, top: 0, right: 500000, bottom: 500000 }
}

#[test]
fn to_screen_maps_the_unit_point() {
    let vp = Viewport::new();
    let canvas = square_canvas();
    let p = vp.to_screen(&canvas, WorldPoint { x: 1000, y: 1000 });
    // One world unit is 25 pixels at scale one; screen y grows downward.
    assert_eq!(p, ScreenVec { x: 275000, y: 225000 });
}

#[test]
fn to_screen_applies_the_pan_after_scaling() {
    let mut vp = Viewport::new();
    vp.pan(4000, -2000);
    let canvas = square_canvas();
    let p = vp.to_screen(&canvas, WorldPoint { x: 0, y: 0 });
    assert_eq!(p, ScreenVec { x: 254000, y: 248000 });
}

#[test]
fn default_bounds_span_ten_units_each_way() {
    let vp = Viewport::new();
    let b = vp.visible_world_bounds(&square_canvas());
    assert_eq!(b.x_min, -10000);
    assert_eq!(b.x_max, 10000);
    assert_eq!(b.y_min, -10000);
    assert_eq!(b.y_max, 10000);
}

#[test]
fn zooming_out_widens_the_bounds() {
    let vp = Viewport { scale: 200, offset: ScreenVec { x: 0, y: 0 } };
    let b = vp.visible_world_bounds(&square_canvas());
    assert_eq!(b.x_min, -20000);
    assert_eq!(b.x_max, 20000);
}

#[test]
fn panning_shifts_the_bounds() {
    let vp = Viewport { scale: 100, offset: ScreenVec { x: 25000, y: 0 } };
    let b = vp.visible_world_bounds(&square_canvas());
    // 25 pixels of pan move the window one world unit to the left.
    assert_eq!(b.x_min, -11000);
    assert_eq!(b.x_max, 9000);
}

#[test]
fn reset_restores_the_initial_view() {
    let mut vp = Viewport { scale: 730, offset: ScreenVec { x: -991, y: 40000 } };
    vp.reset();
    assert_eq!(vp.scale, 100);
    assert_eq!(vp.offset, ScreenVec { x: 0, y: 0 });
}

#[test]
fn screen_round_trip_recovers_a_world_point() {
    // The bounds-derived inverse of the screen mapping: with the scale at
    // one, mapping a world x to the screen and back is exact.
    let vp = Viewport::new();
    let canvas = square_canvas();
    let p = vp.to_screen(&canvas, WorldPoint { x: 7333, y: -4100 });
    let wx = (p.x - 250000) * vp.scale / 2500;
    let wy = (250000 - p.y) * vp.scale / 2500;
    assert_eq!(wx, 7333);
    assert_eq!(wy, -4100);
}
