use rusty_fractals::binary64::is_below;
use rusty_fractals::mandelbrot_settings::MandelbrotSettings;
use rusty_fractals::mandelbrot_settings::Span;
use rusty_fractals::mandelbrot_settings::DEFAULT_MAX_ITERATIONS;
use rusty_fractals::mandelbrot_settings::PAN_FACTOR;
use rusty_fractals::mandelbrot_settings::ZOOM_FACTOR;

fn bits(value: f64) -> u64 {
    value.to_bits()
}

/// Shifts a span by a share of its length, on doubles.
fn shift(span: Span, pan_factor: u64, forward: bool) -> Span {
    let (min, max) = (f64::from_bits(span.min), f64::from_bits(span.max));
    let delta = f64::from_bits(pan_factor) * (min - max).abs();
    let offset = if forward { delta } else { -delta };
    Span { min: bits(min + offset), max: bits(max + offset) }
}

/// Scales a span about its middle, on doubles.
fn scale(span: Span, zoom_factor: u64, inward: bool) -> Span {
    let (min, max) = (f64::from_bits(span.min), f64::from_bits(span.max));
    let factor = f64::from_bits(zoom_factor);
    let centre = (min + max) / 2f64;
    let (min, max) = (min + -centre, max + -centre);
    let (min, max) = if inward { (min / factor, max / factor) } else { (min * factor, max * factor) };
    Span { min: bits(min + centre), max: bits(max + centre) }
}

/// A stand-in for `shift` and `scale` on plain numbers, which shows what it
/// was asked: the ends move by 1 forward or backward, and by 100 more if the
/// factor is the pan factor, by 200 more if it is the zoom factor.
fn counted(span: Span, factor: u64, forward: bool) -> Span {
    let mark = if factor == PAN_FACTOR {
        100
    } else if factor == ZOOM_FACTOR {
        200
    } else {
        0
    };
    if forward {
        Span { min: span.min + 1 + mark, max: span.max + 1 + mark }
    } else {
        Span { min: span.min - 1 + mark, max: span.max - 1 + mark }
    }
}

fn raw_edges(settings: &MandelbrotSettings) -> (u64, u64, u64, u64) {
    (settings.min_x(), settings.max_x(), settings.min_y(), settings.max_y())
}

fn edges(settings: &MandelbrotSettings) -> (f64, f64, f64, f64) {
    (
        f64::from_bits(settings.min_x()),
        f64::from_bits(settings.max_x()),
        f64::from_bits(settings.min_y()),
        f64::from_bits(settings.max_y()),
    )
}

#[test]
fn default_settings_show_the_whole_set() {
    let settings = MandelbrotSettings::default();
    assert_eq!(settings.max_iterations(), 50);
    assert_eq!(DEFAULT_MAX_ITERATIONS, 50);
    assert_eq!(edges(&settings), (-2.2, 0.75, -1.2, 1.2));
    assert!(!settings.needs_re_render());
}

#[test]
fn factors_are_those_of_one_step() {
    let settings = MandelbrotSettings::default();
    assert_eq!(f64::from_bits(settings.zoom_factor()), 1.01);
    assert_eq!(f64::from_bits(settings.pan_factor()), 0.05);
    assert_eq!(ZOOM_FACTOR, bits(1.01));
    assert_eq!(PAN_FACTOR, bits(0.05));
}

#[test]
fn below_agrees_with_the_order_of_doubles() {
    let samples = [
        f64::NEG_INFINITY,
        -f64::MAX,
        -2.2,
        -1.2,
        -1.0,
        -f64::MIN_POSITIVE,
        -5e-324,
        -0.0,
        0.0,
        5e-324,
        f64::MIN_POSITIVE,
        0.05,
        0.75,
        1.0,
        1.01,
        1.2,
        f64::MAX,
        f64::INFINITY,
        f64::NAN,
        -f64::NAN,
    ];
    for a in samples {
        for b in samples {
            let expected = a.is_finite() && b.is_finite() && a < b;
            assert_eq!(is_below(bits(a), bits(b)), expected, "{} < {}", a, b);
        }
    }
}

#[test]
fn below_is_false_for_equal_doubles() {
    assert!(!is_below(bits(1.5), bits(1.5)));
    assert!(!is_below(bits(0.0), bits(-0.0)));
    assert!(!is_below(bits(-0.0), bits(0.0)));
    assert!(is_below(bits(-0.0), bits(5e-324)));
    assert!(is_below(bits(-5e-324), bits(0.0)));
}

#[test]
fn iterations_move_by_delta() {
    let mut settings = MandelbrotSettings::default();
    settings.add_iterations(5);
    assert_eq!(settings.max_iterations(), 55);
    settings.add_iterations(-15);
    assert_eq!(settings.max_iterations(), 40);
    settings.add_iterations(0);
    assert_eq!(settings.max_iterations(), 40);
}

#[test]
fn iterations_never_fall_below_one() {
    let mut settings = MandelbrotSettings::default();
    settings.add_iterations(-49);
    assert_eq!(settings.max_iterations(), 1);
    settings.add_iterations(-1);
    assert_eq!(settings.max_iterations(), 1);
    settings.add_iterations(i32::MIN);
    assert_eq!(settings.max_iterations(), 1);
    settings.add_iterations(i32::MAX - 1);
    assert_eq!(settings.max_iterations(), i32::MAX);
}

#[test]
fn iterations_reset_restores_the_default_cap() {
    let mut settings = MandelbrotSettings::default();
    settings.add_iterations(200);
    settings.set_bounds(bits(-1.0), bits(1.0), bits(-1.0), bits(1.0));
    settings.notify_rendered();
    settings.iterations_reset();
    assert_eq!(settings.max_iterations(), 50);
    assert_eq!(edges(&settings), (-1.0, 1.0, -1.0, 1.0));
    assert!(settings.needs_re_render());
}

#[test]
fn pan_and_zoom_reset_restores_the_default_rectangle() {
    let mut settings = MandelbrotSettings::default();
    settings.add_iterations(7);
    assert!(settings.set_bounds(bits(-0.5), bits(0.5), bits(0.25), bits(0.5)));
    settings.notify_rendered();
    settings.pan_and_zoom_reset();
    assert_eq!(edges(&settings), (-2.2, 0.75, -1.2, 1.2));
    assert_eq!(settings.max_iterations(), 57);
    assert!(settings.needs_re_render());
}

#[test]
fn set_bounds_moves_to_a_rectangle() {
    let mut settings = MandelbrotSettings::default();
    assert!(settings.set_bounds(bits(-2.3475), bits(0.6025), bits(-1.2), bits(1.2)));
    assert_eq!(edges(&settings), (-2.3475, 0.6025, -1.2, 1.2));
    assert!(settings.needs_re_render());
    assert_eq!(settings.max_iterations(), 50);
}

#[test]
fn set_bounds_refuses_what_is_no_rectangle() {
    let refused = [
        (1.0, 1.0, -1.0, 1.0),
        (1.0, -1.0, -1.0, 1.0),
        (-1.0, 1.0, 2.0, 2.0),
        (-1.0, 1.0, 2.0, 1.0),
        (0.0, -0.0, -1.0, 1.0),
        (f64::NAN, 1.0, -1.0, 1.0),
        (-1.0, f64::NAN, -1.0, 1.0),
        (-1.0, 1.0, f64::NAN, 1.0),
        (-1.0, 1.0, -1.0, f64::NAN),
        (f64::NEG_INFINITY, 1.0, -1.0, 1.0),
        (-1.0, f64::INFINITY, -1.0, 1.0),
        (-1.0, 1.0, f64::NEG_INFINITY, 1.0),
        (-1.0, 1.0, -1.0, f64::INFINITY),
    ];
    for (min_x, max_x, min_y, max_y) in refused {
        let mut settings = MandelbrotSettings::default();
        let moved = settings.set_bounds(bits(min_x), bits(max_x), bits(min_y), bits(max_y));
        assert!(!moved, "{} {} {} {}", min_x, max_x, min_y, max_y);
        assert_eq!(edges(&settings), (-2.2, 0.75, -1.2, 1.2));
        assert!(settings.needs_re_render());
    }
}

#[test]
fn rectangle_stays_ordered_through_any_calls() {
    let mut settings = MandelbrotSettings::default();
    let asked = [
        (-2.0, 0.5, -1.0, 1.0),
        (0.5, -2.0, -1.0, 1.0),
        (-1e-300, 1e-300, -1e-300, 1e-300),
        (3.0, 3.0, 3.0, 3.0),
        (-1e300, 1e300, -1e300, 1e300),
    ];
    for (min_x, max_x, min_y, max_y) in asked {
        settings.set_bounds(bits(min_x), bits(max_x), bits(min_y), bits(max_y));
        let (a, b, c, d) = edges(&settings);
        assert!(a < b && c < d);
        settings.pan_and_zoom_reset();
        let (a, b, c, d) = edges(&settings);
        assert!(a < b && c < d);
        settings.set_bounds(bits(min_x), bits(max_x), bits(min_y), bits(max_y));
        settings.iterations_reset();
        let (a, b, c, d) = edges(&settings);
        assert!(a < b && c < d);
    }
}

#[test]
fn flag_is_down_only_at_the_start_and_after_a_frame() {
    let mut settings = MandelbrotSettings::default();
    assert!(!settings.needs_re_render());

    settings.add_iterations(1);
    assert!(settings.needs_re_render());
    settings.notify_rendered();
    assert!(!settings.needs_re_render());

    settings.iterations_reset();
    assert!(settings.needs_re_render());
    settings.notify_rendered();

    settings.pan_and_zoom_reset();
    assert!(settings.needs_re_render());
    settings.notify_rendered();

    settings.set_bounds(bits(-1.0), bits(1.0), bits(-1.0), bits(1.0));
    assert!(settings.needs_re_render());
    settings.notify_rendered();

    settings.notify_needs_re_render();
    assert!(settings.needs_re_render());
    settings.notify_needs_re_render();
    assert!(settings.needs_re_render());
    settings.notify_rendered();
    assert!(!settings.needs_re_render());
}

#[test]
fn notify_rendered_twice_is_as_once() {
    let mut settings = MandelbrotSettings::default();
    settings.add_iterations(3);
    settings.notify_rendered();
    assert!(!settings.needs_re_render());
    settings.notify_rendered();
    assert!(!settings.needs_re_render());
    assert_eq!(settings.max_iterations(), 53);
    assert_eq!(edges(&settings), (-2.2, 0.75, -1.2, 1.2));
}

#[test]
fn pan_moves_one_axis_the_asked_way_by_the_pan_factor() {
    let mut settings = MandelbrotSettings::default();
    assert!(settings.set_bounds(1000, 2000, 3000, 4000));
    settings.notify_rendered();

    settings.pan_left(&counted);
    assert_eq!(raw_edges(&settings), (1099, 2099, 3000, 4000));
    assert!(settings.needs_re_render());
    settings.notify_rendered();

    settings.pan_right(&counted);
    assert_eq!(raw_edges(&settings), (1200, 2200, 3000, 4000));
    assert!(settings.needs_re_render());
    settings.notify_rendered();

    settings.pan_up(&counted);
    assert_eq!(raw_edges(&settings), (1200, 2200, 3099, 4099));
    assert!(settings.needs_re_render());
    settings.notify_rendered();

    settings.pan_down(&counted);
    assert_eq!(raw_edges(&settings), (1200, 2200, 3200, 4200));
    assert!(settings.needs_re_render());
    assert_eq!(settings.max_iterations(), 50);
}

#[test]
fn zoom_scales_both_axes_the_asked_way_by_the_zoom_factor() {
    let mut settings = MandelbrotSettings::default();
    assert!(settings.set_bounds(1000, 2000, 3000, 4000));
    settings.notify_rendered();

    settings.zoom_in(&counted);
    assert_eq!(raw_edges(&settings), (1201, 2201, 3201, 4201));
    assert!(settings.needs_re_render());
    settings.notify_rendered();

    settings.zoom_out(&counted);
    assert_eq!(raw_edges(&settings), (1400, 2400, 3400, 4400));
    assert!(settings.needs_re_render());
    assert_eq!(settings.max_iterations(), 50);
}

#[test]
fn pan_shifts_by_a_twentieth_of_the_span() {
    let mut settings = MandelbrotSettings::default();
    settings.pan_left(&shift);
    let delta = 0.05 * (-2.2f64 - 0.75).abs();
    assert_eq!(edges(&settings), (-2.2 + -delta, 0.75 + -delta, -1.2, 1.2));
    assert!((f64::from_bits(settings.min_x()) - -2.3475).abs() < 1e-12);
    assert!((f64::from_bits(settings.max_x()) - 0.6025).abs() < 1e-12);

    settings.pan_and_zoom_reset();
    settings.pan_right(&shift);
    assert_eq!(edges(&settings), (-2.2 + delta, 0.75 + delta, -1.2, 1.2));

    settings.pan_and_zoom_reset();
    settings.pan_up(&shift);
    let delta = 0.05 * (-1.2f64 - 1.2).abs();
    assert_eq!(edges(&settings), (-2.2, 0.75, -1.2 + -delta, 1.2 + -delta));
    assert!((f64::from_bits(settings.min_y()) - -1.32).abs() < 1e-12);

    settings.pan_and_zoom_reset();
    settings.pan_down(&shift);
    assert_eq!(edges(&settings), (-2.2, 0.75, -1.2 + delta, 1.2 + delta));
    assert!((f64::from_bits(settings.max_y()) - 1.32).abs() < 1e-12);
}

#[test]
fn pan_leaves_the_span_as_long_as_it_was() {
    let mut settings = MandelbrotSettings::default();
    for _ in 0..10 {
        settings.pan_left(&shift);
        settings.pan_down(&shift);
    }
    let (min_x, max_x, min_y, max_y) = edges(&settings);
    assert!(((max_x - min_x) - 2.95).abs() < 1e-9);
    assert!(((max_y - min_y) - 2.4).abs() < 1e-9);
    assert!((min_x - (-2.2 - 10.0 * 0.1475)).abs() < 1e-9);
    assert!((min_y - (-1.2 + 10.0 * 0.12)).abs() < 1e-9);
}

#[test]
fn zoom_keeps_the_middle_and_scales_the_span() {
    let mut settings = MandelbrotSettings::default();
    settings.pan_right(&shift);
    let (min_x, max_x, min_y, max_y) = edges(&settings);
    settings.zoom_in(&scale);
    let (a, b, c, d) = edges(&settings);
    assert!(((a + b) / 2.0 - (min_x + max_x) / 2.0).abs() < 1e-12);
    assert!(((c + d) / 2.0 - (min_y + max_y) / 2.0).abs() < 1e-12);
    assert!(((b - a) - (max_x - min_x) / 1.01).abs() < 1e-12);
    assert!(((d - c) - (max_y - min_y) / 1.01).abs() < 1e-12);
    settings.zoom_out(&scale);
    settings.zoom_out(&scale);
    let (a, b, c, d) = edges(&settings);
    assert!(((a + b) / 2.0 - (min_x + max_x) / 2.0).abs() < 1e-12);
    assert!(((b - a) - (max_x - min_x) * 1.01).abs() < 1e-12);
    assert!(((d - c) - (max_y - min_y) * 1.01).abs() < 1e-12);
}

#[test]
fn zoom_in_then_out_returns_to_the_start() {
    let mut settings = MandelbrotSettings::default();
    let before = edges(&settings);
    settings.zoom_in(&scale);
    assert_ne!(edges(&settings), before);
    settings.zoom_out(&scale);
    let after = edges(&settings);
    assert!((after.0 - before.0).abs() < 1e-9);
    assert!((after.1 - before.1).abs() < 1e-9);
    assert!((after.2 - before.2).abs() < 1e-9);
    assert!((after.3 - before.3).abs() < 1e-9);
    assert!(settings.needs_re_render());

    settings.pan_left(&shift);
    settings.pan_up(&shift);
    let before = edges(&settings);
    settings.zoom_out(&scale);
    settings.zoom_in(&scale);
    let after = edges(&settings);
    assert!((after.0 - before.0).abs() < 1e-9);
    assert!((after.1 - before.1).abs() < 1e-9);
    assert!((after.2 - before.2).abs() < 1e-9);
    assert!((after.3 - before.3).abs() < 1e-9);
}

#[test]
fn rectangle_survives_any_pans_zooms_and_resets() {
    let mut settings = MandelbrotSettings::default();
    let mut seed: u32 = 12345;
    for round in 0..20000 {
        seed = seed.wrapping_mul(1664525).wrapping_add(1013904223);
        match (seed >> 16) % 8 {
            0 => settings.pan_left(&shift),
            1 => settings.pan_right(&shift),
            2 => settings.pan_up(&shift),
            3 => settings.pan_down(&shift),
            4 | 5 => settings.zoom_in(&scale),
            6 => settings.zoom_out(&scale),
            _ => {
                if round % 4000 == 3999 {
                    settings.pan_and_zoom_reset()
                }
            }
        }
        let (min_x, max_x, min_y, max_y) = edges(&settings);
        assert!(min_x < max_x && min_y < max_y, "round {}", round);
        assert!(min_x.is_finite() && max_x.is_finite() && min_y.is_finite() && max_y.is_finite());
    }
}

#[test]
fn pan_or_zoom_that_gives_no_rectangle_is_refused() {
    fn inverted(span: Span, _factor: u64, _forward: bool) -> Span {
        Span { min: span.max, max: span.min }
    }
    fn closed(span: Span, _factor: u64, _forward: bool) -> Span {
        Span { min: span.min, max: span.min }
    }
    fn not_a_number(span: Span, _factor: u64, _forward: bool) -> Span {
        Span { min: span.min, max: f64::NAN.to_bits() }
    }
    fn endless(span: Span, _factor: u64, _forward: bool) -> Span {
        Span { min: f64::NEG_INFINITY.to_bits(), max: span.max }
    }
    let broken: [fn(Span, u64, bool) -> Span; 4] = [inverted, closed, not_a_number, endless];
    for arithmetic in broken {
        let mut settings = MandelbrotSettings::default();
        settings.pan_left(&arithmetic);
        assert_eq!(edges(&settings), (-2.2, 0.75, -1.2, 1.2));
        assert!(settings.needs_re_render());
        settings.notify_rendered();
        settings.pan_right(&arithmetic);
        settings.pan_up(&arithmetic);
        settings.pan_down(&arithmetic);
        settings.zoom_in(&arithmetic);
        assert_eq!(edges(&settings), (-2.2, 0.75, -1.2, 1.2));
        assert!(settings.needs_re_render());
        settings.notify_rendered();
        settings.zoom_out(&arithmetic);
        assert_eq!(edges(&settings), (-2.2, 0.75, -1.2, 1.2));
        assert!(settings.needs_re_render());
        assert_eq!(settings.max_iterations(), 50);
    }
}

#[test]
fn deep_zoom_keeps_a_rectangle() {
    let mut settings = MandelbrotSettings::default();
    settings.pan_left(&shift);
    for _ in 0..100000 {
        settings.zoom_in(&scale);
        let now = edges(&settings);
        assert!(now.0 < now.1 && now.2 < now.3);
    }
}

#[test]
fn pan_and_zoom_raise_the_flag() {
    let mut settings = MandelbrotSettings::default();
    settings.pan_left(&shift);
    assert!(settings.needs_re_render());
    settings.notify_rendered();
    settings.pan_right(&shift);
    assert!(settings.needs_re_render());
    settings.notify_rendered();
    settings.pan_up(&shift);
    assert!(settings.needs_re_render());
    settings.notify_rendered();
    settings.pan_down(&shift);
    assert!(settings.needs_re_render());
    settings.notify_rendered();
    settings.zoom_in(&scale);
    assert!(settings.needs_re_render());
    settings.notify_rendered();
    settings.zoom_out(&scale);
    assert!(settings.needs_re_render());
    settings.notify_rendered();
    assert!(!settings.needs_re_render());
}

#[test]
fn settings_can_be_copied_for_a_render() {
    let mut settings = MandelbrotSettings::default();
    let snapshot = settings;
    settings.add_iterations(10);
    settings.set_bounds(bits(-1.0), bits(1.0), bits(-1.0), bits(1.0));
    assert_eq!(snapshot.max_iterations(), 50);
    assert_eq!(edges(&snapshot), (-2.2, 0.75, -1.2, 1.2));
    assert!(!snapshot.needs_re_render());
}
