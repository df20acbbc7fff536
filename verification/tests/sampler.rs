use plotter_core::model::{CompileStatus, FunctionEntry, PlotModel, Rgb};
use plotter_core::sampler::{build_world_segments, sample_xs, EvalOutcome};
use plotter_core::viewport::CanvasRect;

fn entry(formula: &str, resolution: usize) -> FunctionEntry {
    FunctionEntry {
        formula: String::from(formula),
        compiled: CompileStatus::Compiled,
        color: Rgb { red: 0, green: 255, blue: 0 },
        resolution,
    }
}

/// Evaluates a formula's value at a world x given in thousandths,
/// returning the outcome in thousandths, as a host would.
fn eval_to_outcome(f: impl Fn(f64) -> f64, x_milli: i64) -> EvalOutcome {
    let y = f(x_milli as f64 / 1000.0);
    if y.is_finite() {
        EvalOutcome::Value((y * 1000.0).round() as i64)
    } else {
        EvalOutcome::Failed
    }
}

#[test]
fn resolution_yields_exactly_that_many_samples() {
    let xs = sample_xs(-10000, 10000, 500);
    assert_eq!(xs.len(), 500);
    let xs = sample_xs(0, 1, 2);
    assert_eq!(xs.len(), 2);
}

#[test]
fn sample_grid_hits_both_endpoints() {
    let xs = sample_xs(0, 10, 5);
    assert_eq!(xs, vec![0, 2, 5, 7, 10]);
}

#[test]
fn tiny_ranges_still_span_instead_of_collapsing() {
    // A visible range narrower than the sample count: the grid must
    // still reach the far edge, not sit at the near one.
    let xs = sample_xs(0, 3, 5);
    assert_eq!(*xs.first().unwrap(), 0);
    assert_eq!(*xs.last().unwrap(), 3);
    assert!(xs.windows(2).all(|w| w[0] <= w[1]));
}

#[test]
fn parabola_yields_one_unbroken_segment() {
    // A canvas 100 pixels wide and 500 tall shows x in [-2, 2] and y in
    // [-10, 10] at scale one; x squared stays inside, so the 500 samples
    // form a single segment spanning the whole visible x range.
    let mut model = PlotModel::new();
    model.entries.push(entry("x^2", 500));
    let canvas = CanvasRect { left: 0, top: 0, right: 100000, bottom: 500000 };
    let xs = model.entry_sample_xs(0, &canvas);
    assert_eq!(xs.len(), 500);
    let ys: Vec<EvalOutcome> = xs.iter().map(|&x| eval_to_outcome(|w| w * w, x)).collect();
    let segments = model.entry_world_segments(0, &canvas, &ys);
    assert_eq!(segments.len(), 1);
    assert_eq!(segments[0].len(), 500);
    assert_eq!(segments[0][0].x, -2000);
    assert_eq!(segments[0][499].x, 2000);
}

#[test]
fn reciprocal_splits_at_the_pole() {
    // Five samples across [-10, 10] land one sample exactly on x = 0,
    // where 1/x is undefined: the sampler must break there and never
    // emit that sample.
    let mut model = PlotModel::new();
    model.entries.push(entry("1/x", 5));
    model.entries[0].resolution = 5;
    let canvas = CanvasRect { left: 0, top: 0, right: 500000, bottom: 500000 };
    let xs = model.entry_sample_xs(0, &canvas);
    assert_eq!(xs.len(), 5);
    assert!(xs.contains(&0));
    let ys: Vec<EvalOutcome> = xs.iter().map(|&x| eval_to_outcome(|w| 1.0 / w, x)).collect();
    let segments = model.entry_world_segments(0, &canvas, &ys);
    assert!(segments.len() >= 2);
    for seg in &segments {
        for p in seg {
            assert_ne!(p.x, 0);
        }
    }
}

#[test]
fn out_of_range_values_break_segments_like_errors() {
    let xs = vec![0, 1, 2, 3, 4];
    let ys = vec![
        EvalOutcome::Value(5),
        EvalOutcome::Value(99),
        EvalOutcome::Value(5),
        EvalOutcome::Failed,
        EvalOutcome::Value(-5),
    ];
    let segments = build_world_segments(&xs, &ys, -10, 10);
    assert_eq!(segments.len(), 3);
    assert_eq!(segments[0].len(), 1);
    assert_eq!(segments[1].len(), 1);
    assert_eq!(segments[2].len(), 1);
    assert_eq!(segments[0][0].x, 0);
    assert_eq!(segments[1][0].x, 2);
    assert_eq!(segments[2][0].x, 4);
}

#[test]
fn all_invalid_outcomes_yield_no_segments() {
    let xs = vec![0, 1];
    let ys = vec![EvalOutcome::Failed, EvalOutcome::Value(11)];
    let segments = build_world_segments(&xs, &ys, -10, 10);
    assert_eq!(segments.len(), 0);
}

#[test]
fn trailing_run_is_flushed() {
    let xs = vec![0, 1, 2];
    let ys = vec![EvalOutcome::Failed, EvalOutcome::Value(1), EvalOutcome::Value(2)];
    let segments = build_world_segments(&xs, &ys, -10, 10);
    assert_eq!(segments.len(), 1);
    assert_eq!(segments[0].len(), 2);
}

#[test]
fn screen_segments_follow_the_viewport_mapping() {
    let mut model = PlotModel::new();
    model.entries.push(entry("x", 10));
    model.entries[0].resolution = 10;
    let canvas = CanvasRect { left: 0, top: 0, right: 500000, bottom: 500000 };
    let xs = model.entry_sample_xs(0, &canvas);
    let ys: Vec<EvalOutcome> = xs.iter().map(|&x| EvalOutcome::Value(x)).collect();
    let screen = model.entry_screen_segments(0, &canvas, &ys);
    assert_eq!(screen.len(), 1);
    assert_eq!(screen[0].len(), 10);
    // The first sample sits at world (-10, -10): 250 pixels left of and
    // below the center.
    assert_eq!(screen[0][0].x, 0);
    assert_eq!(screen[0][0].y, 500000);
}
