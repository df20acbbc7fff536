use plotter_core::model::{CompileStatus, FrameInput, FunctionEntry, PlotModel, Rgb};
use plotter_core::viewport::ScreenVec;

fn row(formula: &str) -> FunctionEntry {
    FunctionEntry {
        formula: String::from(formula),
        compiled: CompileStatus::Compiled,
        color: Rgb { red: 10, green: 20, blue: 30 },
        resolution: 100,
    }
}

fn no_input() -> FrameInput {
    FrameInput {
        pinch_factors: Vec::new(),
        scroll_delta: 0,
        drag_x: 0,
        drag_y: 0,
        hovered: false,
        reset: false,
    }
}

#[test]
fn normalize_drops_empty_rows_and_appends_one_blank() {
    let mut model = PlotModel::new();
    model.entries.push(row("x^2"));
    model.entries.push(row(""));
    model.entries.push(row("1/x"));
    model.normalize_entries();
    assert_eq!(model.entries.len(), 3);
    assert_eq!(model.entries[0].formula, "x^2");
    assert_eq!(model.entries[1].formula, "1/x");
    assert_eq!(model.entries[2].formula, "");
    assert_eq!(model.entries[2].resolution, 500);
}

#[test]
fn normalize_always_leaves_exactly_one_trailing_blank() {
    let mut model = PlotModel::new();
    model.normalize_entries();
    model.normalize_entries();
    assert_eq!(model.entries.len(), 1);
    assert_eq!(model.entries[0].formula, "");
}

#[test]
fn hovered_pinch_then_scroll_compose() {
    let mut model = PlotModel::new();
    let mut input = no_input();
    input.hovered = true;
    input.pinch_factors.push(200);
    input.scroll_delta = 1;
    model.apply_frame_input(&input);
    // 1.00 pinched by 2.00 gives 2.00; one scroll up at coarse scale
    // gives 2.10.
    assert_eq!(model.viewport.scale, 210);
}

#[test]
fn zoom_input_is_ignored_away_from_the_surface() {
    let mut model = PlotModel::new();
    let mut input = no_input();
    input.pinch_factors.push(200);
    input.scroll_delta = 1;
    model.apply_frame_input(&input);
    assert_eq!(model.viewport.scale, 100);
}

#[test]
fn drag_pans_unscaled() {
    let mut model = PlotModel::new();
    let mut input = no_input();
    input.drag_x = 7000;
    input.drag_y = -3000;
    model.apply_frame_input(&input);
    assert_eq!(model.viewport.offset, ScreenVec { x: 7000, y: -3000 });
}

#[test]
fn reset_wins_regardless_of_prior_state() {
    let mut model = PlotModel::new();
    let mut warp = no_input();
    warp.hovered = true;
    warp.pinch_factors.push(350);
    warp.drag_x = 123000;
    warp.drag_y = -45000;
    model.apply_frame_input(&warp);
    assert_ne!(model.viewport.scale, 100);
    let mut input = no_input();
    input.reset = true;
    input.drag_x = 1000;
    model.apply_frame_input(&input);
    assert_eq!(model.viewport.scale, 100);
    assert_eq!(model.viewport.offset, ScreenVec { x: 0, y: 0 });
}

#[test]
fn resolution_updates_are_clamped_to_the_widget_range() {
    let mut model = PlotModel::new();
    model.entries.push(row("x"));
    model.set_entry_resolution(0, 5);
    assert_eq!(model.entries[0].resolution, 10);
    model.set_entry_resolution(0, 20000);
    assert_eq!(model.entries[0].resolution, 9999);
    model.set_entry_resolution(0, 777);
    assert_eq!(model.entries[0].resolution, 777);
}

#[test]
fn formula_updates_store_the_compile_verdict() {
    let mut model = PlotModel::new();
    model.entries.push(row("x"));
    model.set_entry_formula(0, String::from("x +"), CompileStatus::Failed);
    assert_eq!(model.entries[0].formula, "x +");
    assert!(matches!(model.entries[0].compiled, CompileStatus::Failed));
    model.set_entry_color(0, Rgb { red: 1, green: 2, blue: 3 });
    assert_eq!(model.entries[0].color, Rgb { red: 1, green: 2, blue: 3 });
}
