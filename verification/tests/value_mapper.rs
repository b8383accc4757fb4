//! Tests of the value mapper: range clamping, stepping, normalization and
//! the paint-position roundtrip. All quantities are in the fixed-point unit
//! the application chooses; the scenarios here use tenths, so a range of
//! `[0, 10.0]` is written `[0, 100]`.

use slider::HostFlags;
use slider::LifecycleEvent;
use slider::PointerEvent;
use slider::Slider;

fn attached(min: i64, max: i64) -> Slider {
    let mut s = Slider::new().with_range(min, max);
    s.lifecycle(&LifecycleEvent::WidgetAdded);
    s
}

#[test]
fn value_stays_in_range_for_extreme_pointers() {
    let s = attached(0, 100);
    assert_eq!(s.calculate_value(-1_000_000, 20, 120), 0);
    assert_eq!(s.calculate_value(1_000_000, 20, 120), 100);
}

#[test]
fn continuous_midpoint_maps_to_middle_value() {
    let s = attached(0, 100);
    // Pointer at the middle of the usable track: scalar 1/2.
    assert_eq!(s.calculate_value(60, 20, 120), 50);
}

#[test]
fn pointer_at_half_knob_maps_to_min() {
    // Range [0, 1], no step, pointer at knob_diameter / 2: scalar clamps
    // to zero and the output is the minimum.
    let s = attached(0, 1);
    assert_eq!(s.calculate_value(10, 20, 100), 0);
}

#[test]
fn stepped_range_snaps_to_grid() {
    let mut s = attached(0, 10);
    s = s.with_step(3);
    // Scalar 1/2: raw value 5, nearest multiple of 3 is 6.
    assert_eq!(s.calculate_value(60, 20, 120), 6);
}

#[test]
fn stepped_value_beyond_last_multiple_prefers_nearer_end() {
    let mut s = attached(0, 10);
    s = s.with_step(3);
    // Raw 9.2: distance 0.2 to the last multiple 9, 0.8 to max 10.
    assert_eq!(s.calculate_value(102, 20, 120), 9);
    // Raw 9.7: distance 0.7 to 9, 0.3 to max 10.
    assert_eq!(s.calculate_value(107, 20, 120), 10);
}

#[test]
fn stepped_value_tie_favours_max() {
    let mut s = attached(0, 10);
    s = s.with_step(3);
    // Raw 9.5: exactly halfway between 9 and 10.
    assert_eq!(s.calculate_value(105, 20, 120), 10);
}

#[test]
fn max_is_reachable_with_step_that_divides_range() {
    // Range [0, 10.0] in tenths, step 2.5, track width 100.0, knob 20.0,
    // pointer at 95.0: the scalar clamps to 1 and the output is exactly
    // the maximum, which the step grid reaches.
    let mut s = attached(0, 100);
    s = s.with_step(25);
    assert_eq!(s.calculate_value(950, 200, 1000), 100);
}

#[test]
fn max_is_reachable_with_step_that_does_not_divide_range() {
    let mut s = attached(0, 10);
    s = s.with_step(3);
    assert_eq!(s.calculate_value(120, 20, 120), 10);
}

#[test]
fn stepped_values_are_aligned_or_max() {
    let mut s = attached(0, 10);
    s = s.with_step(3);
    let mut x: i64 = -10;
    while x <= 130 {
        let v = s.calculate_value(x, 20, 120);
        assert!(v == 10 || v % 3 == 0);
        assert!((0..=10).contains(&v));
        x += 1;
    }
}

#[test]
fn value_is_monotone_in_pointer_position() {
    let stepped = attached(0, 100).with_step(7);
    let smooth = attached(0, 100);
    for s in [smooth, stepped] {
        let mut previous: i64 = s.calculate_value(-5, 20, 120);
        let mut x: i64 = -4;
        while x <= 125 {
            let v = s.calculate_value(x, 20, 120);
            assert!(v >= previous);
            previous = v;
            x += 1;
        }
    }
}

#[test]
fn ranges_below_zero_map_and_step_the_same_way() {
    let s = attached(-50, 50);
    assert_eq!(s.calculate_value(60, 20, 120), 0);
    assert_eq!(s.calculate_value(-100, 20, 120), -50);
    assert_eq!(s.calculate_value(1000, 20, 120), 50);
    let stepped = attached(-50, 50).with_step(30);
    // Raw value 0 snaps to the grid -50, -20, 10, 40, 50.
    assert_eq!(stepped.calculate_value(60, 20, 120), 10);
}

#[test]
fn normalize_is_the_exact_range_fraction() {
    let s = attached(10, 20);
    let r = s.normalize(17);
    assert_eq!(r.num, 7);
    assert_eq!(r.den, 10);
}

#[test]
fn normalize_clamps_out_of_range_values() {
    let s = attached(10, 20);
    let low = s.normalize(5);
    assert_eq!((low.num, low.den), (0, 10));
    let high = s.normalize(25);
    assert_eq!((high.num, high.den), (10, 10));
}

#[test]
fn degenerate_range_normalizes_to_defined_fallback() {
    let s = attached(5, 5);
    let r = s.normalize(5);
    assert_eq!((r.num, r.den), (0, 1));
    let r2 = s.normalize(123);
    assert_eq!((r2.num, r2.den), (0, 1));
}

#[test]
fn paint_position_roundtrips_to_the_same_value() {
    let mut s = attached(0, 100);
    let host = HostFlags { active: true, hot: false, disabled: false };
    let mut v: i64 = 37;
    let plan = s.paint(v, &HostFlags { active: false, hot: false, disabled: false }, 20, 120);
    // Dragging from the painted knob centre, with zero offset, reproduces
    // the value that was painted.
    let mut data: i64 = 0;
    s.x_offset = 0;
    s.event(
        &PointerEvent::Up { x: plan.knob_center.x, y: plan.knob_center.y },
        &host,
        &mut data,
        20,
        120,
    );
    assert_eq!(data, v);
    v = 64;
    let plan2 = s.paint(v, &HostFlags { active: false, hot: false, disabled: false }, 20, 120);
    s.event(
        &PointerEvent::Up { x: plan2.knob_center.x, y: plan2.knob_center.y },
        &host,
        &mut data,
        20,
        120,
    );
    assert_eq!(data, v);
}
