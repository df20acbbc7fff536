use plotter_core::zoom::{apply_pinch, apply_scroll, apply_zoom_batch, ZoomEvent};

// Scales and pinch factors are in hundredths: 200 stands for 2.00.

#[test]
fn scroll_up_at_coarse_scale_steps_by_a_tenth() {
    // scale 2.0, scroll +1: round((2.0 + 0.1) * 10) / 10 = 2.1
    assert_eq!(apply_scroll(200, 1), 210);
}

#[test]
fn scroll_down_at_fine_scale_steps_by_a_hundredth() {
    // scale 0.5, scroll -1: round((0.5 - 0.01) * 100) / 100 = 0.49
    assert_eq!(apply_scroll(50, -1), 49);
}

#[test]
fn scale_one_exactly_uses_the_fine_step() {
    assert_eq!(apply_scroll(100, 1), 101);
    assert_eq!(apply_scroll(100, -1), 99);
}

#[test]
fn scroll_clamps_at_both_ends() {
    assert_eq!(apply_scroll(1000, 1), 1000);
    assert_eq!(apply_scroll(10, -1), 10);
}

#[test]
fn zero_scroll_changes_nothing() {
    assert_eq!(apply_scroll(250, 0), 250);
}

#[test]
fn scroll_requantizes_an_off_grid_coarse_scale() {
    // 1.05 scrolled up: round((1.05 + 0.1) * 10) / 10 = 1.2
    assert_eq!(apply_scroll(105, 1), 120);
}

#[test]
fn pinch_multiplies_and_clamps() {
    assert_eq!(apply_pinch(100, 200), 200);
    assert_eq!(apply_pinch(1000, 200), 1000);
    assert_eq!(apply_pinch(100, 1), 10);
}

#[test]
fn huge_pinch_factors_saturate_the_scale() {
    assert_eq!(apply_pinch(10, 10000), 1000);
    assert_eq!(apply_pinch(100, 5_000_000_000_000_000), 1000);
}

#[test]
fn any_event_batch_leaves_scale_in_range() {
    let events = vec![
        ZoomEvent::Pinch { factor: 90000 },
        ZoomEvent::Scroll { delta: 3 },
        ZoomEvent::Pinch { factor: 1 },
        ZoomEvent::Scroll { delta: -5 },
        ZoomEvent::Scroll { delta: -1 },
    ];
    let r = apply_zoom_batch(100, &events);
    assert!((10..=1000).contains(&r));
}
