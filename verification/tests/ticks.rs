use plotter_core::ticks::{
    plan_axis_marks, x_axis_screen_y, x_label_placement, y_axis_screen_x, y_label_placement,
    AxisKind, LabelAnchor,
};
use plotter_core::viewport::{CanvasRect, ScreenVec, Viewport};

fn square_canvas() -> CanvasRect {
    CanvasRect { left: 0, top: 0, right: 500000, bottom: 500000 }
}

#[test]
fn axis_lines_sit_at_the_panned_center() {
    let vp = Viewport { scale: 100, offset: ScreenVec { x: 4000, y: -6000 } };
    let canvas = square_canvas();
    assert_eq!(x_axis_screen_y(&vp, &canvas), 244000);
    assert_eq!(y_axis_screen_x(&vp, &canvas), 254000);
}

#[test]
fn axis_lines_are_clamped_to_the_canvas() {
    let vp = Viewport { scale: 100, offset: ScreenVec { x: 900000, y: -900000 } };
    let canvas = square_canvas();
    assert_eq!(x_axis_screen_y(&vp, &canvas), 0);
    assert_eq!(y_axis_screen_x(&vp, &canvas), 500000);
}

#[test]
fn marks_are_spaced_and_labelled_from_the_center() {
    let vp = Viewport::new();
    let canvas = square_canvas();
    let marks = plan_axis_marks(&vp, &canvas, AxisKind::Horizontal);
    assert_eq!(marks.len(), 21);
    assert_eq!(marks[0].screen_along, 0);
    assert_eq!(marks[1].screen_along, 25000);
    assert_eq!(marks[20].screen_along, 500000);
    // Mark i stands for (i - 10) world units.
    assert_eq!(marks[0].label.as_deref(), Some("-10"));
    assert_eq!(marks[11].label.as_deref(), Some("1"));
    assert_eq!(marks[20].label.as_deref(), Some("10"));
}

#[test]
fn origin_labels_are_suppressed_on_both_axes() {
    let vp = Viewport::new();
    let canvas = square_canvas();
    let horizontal = plan_axis_marks(&vp, &canvas, AxisKind::Horizontal);
    let vertical = plan_axis_marks(&vp, &canvas, AxisKind::Vertical);
    assert_eq!(horizontal[10].value, 0);
    assert!(horizontal[10].label.is_none());
    assert!(vertical[10].label.is_none());
}

#[test]
fn vertical_axis_values_grow_downward_negative() {
    let vp = Viewport::new();
    let canvas = square_canvas();
    let marks = plan_axis_marks(&vp, &canvas, AxisKind::Vertical);
    // The topmost mark shows the highest world y.
    assert_eq!(marks[0].label.as_deref(), Some("10"));
    assert_eq!(marks[20].label.as_deref(), Some("-10"));
}

#[test]
fn scaled_marks_carry_scaled_values() {
    let vp = Viewport { scale: 50, offset: ScreenVec { x: 0, y: 0 } };
    let canvas = square_canvas();
    let marks = plan_axis_marks(&vp, &canvas, AxisKind::Horizontal);
    // At scale 0.50 each mark is half a world unit: the first shows -5.
    assert_eq!(marks[0].value, -50000);
    assert_eq!(marks[0].label.as_deref(), Some("-5"));
    assert_eq!(marks[11].label.as_deref(), Some("0.5"));
}

#[test]
fn pan_shifts_marks_within_one_spacing_and_renumbers_whole_spacings() {
    let vp = Viewport { scale: 100, offset: ScreenVec { x: -30000, y: 0 } };
    let canvas = square_canvas();
    let marks = plan_axis_marks(&vp, &canvas, AxisKind::Horizontal);
    // The pan's remainder keeps the sign of the offset, as a float
    // remainder would.
    assert_eq!(marks[0].screen_along, -5000);
    // A 30-pixel pan leftward is one whole spacing, counted by its
    // floor: the first mark now stands for -8.
    assert_eq!(marks[0].label.as_deref(), Some("-8"));
}

#[test]
fn x_labels_flip_above_the_axis_at_the_bottom_edge() {
    let canvas = square_canvas();
    assert_eq!(
        x_label_placement(250000, 10000, &canvas),
        (260000, LabelAnchor::CenterTop)
    );
    assert_eq!(
        x_label_placement(495000, 10000, &canvas),
        (485000, LabelAnchor::CenterBottom)
    );
}

#[test]
fn y_labels_flip_right_of_the_axis_at_the_left_edge() {
    let canvas = square_canvas();
    assert_eq!(
        y_label_placement(250000, 20000, &canvas),
        (240000, LabelAnchor::RightCenter)
    );
    assert_eq!(
        y_label_placement(25000, 20000, &canvas),
        (35000, LabelAnchor::LeftCenter)
    );
}

#[test]
fn suppression_follows_the_panned_origin() {
    // One whole spacing of rightward pan moves the zero mark from index
    // 10 to index 11.
    let vp = Viewport { scale: 100, offset: ScreenVec { x: 25000, y: 0 } };
    let canvas = square_canvas();
    let marks = plan_axis_marks(&vp, &canvas, AxisKind::Horizontal);
    assert!(marks[10].label.is_some());
    assert_eq!(marks[10].value, -10000);
    assert!(marks[11].label.is_none());
}

#[test]
fn marks_start_from_the_canvas_edge() {
    let vp = Viewport::new();
    let canvas = CanvasRect { left: 100000, top: 40000, right: 600000, bottom: 540000 };
    let horizontal = plan_axis_marks(&vp, &canvas, AxisKind::Horizontal);
    let vertical = plan_axis_marks(&vp, &canvas, AxisKind::Vertical);
    assert_eq!(horizontal[0].screen_along, 100000);
    assert_eq!(vertical[0].screen_along, 40000);
}
