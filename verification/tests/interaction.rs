//! Tests of the interaction state tracker, the builders, the lifecycle
//! validation, layout and paint output.

use slider::BoxConstraints;
use slider::HostFlags;
use slider::KnobFill;
use slider::LifecycleEvent;
use slider::Point;
use slider::PointerEvent;
use slider::Slider;

fn idle_host() -> HostFlags {
    HostFlags { active: false, hot: false, disabled: false }
}

#[test]
fn new_slider_covers_the_unit_range() {
    let s = Slider::new();
    assert_eq!(s.min, 0);
    assert_eq!(s.max, 1);
    assert!(s.step.is_none());
    assert!(!s.knob_hovered);
    assert_eq!(s.x_offset, 0);
    assert!(!s.warned_bad_step);
    assert!(!s.warned_swapped_range);
}

#[test]
fn swapped_range_is_corrected_at_attach_with_warning() {
    let mut s = Slider::new().with_range(5, 1);
    assert_eq!((s.min, s.max), (5, 1));
    let repaint = s.lifecycle(&LifecycleEvent::WidgetAdded);
    assert!(!repaint);
    assert_eq!((s.min, s.max), (1, 5));
    assert!(s.warned_swapped_range);
}

#[test]
fn ordered_range_attaches_without_warning() {
    let mut s = Slider::new().with_range(1, 5);
    s.lifecycle(&LifecycleEvent::WidgetAdded);
    assert_eq!((s.min, s.max), (1, 5));
    assert!(!s.warned_swapped_range);
}

#[test]
fn negative_step_is_rejected_with_warning() {
    let s = Slider::new().with_step(-1);
    assert!(s.step.is_none());
    assert!(s.warned_bad_step);
    // Stepping behaves as if with_step had never been called.
    assert_eq!(s.step, Slider::new().step);
}

#[test]
fn zero_step_means_no_stepping() {
    let s = Slider::new().with_step(0);
    assert!(s.step.is_none());
    assert!(!s.warned_bad_step);
}

#[test]
fn positive_step_is_stored() {
    let s = Slider::new().with_step(7);
    assert_eq!(s.step, Some(7));
}

#[test]
fn press_off_the_knob_jumps_the_value() {
    let mut s = Slider::new().with_range(0, 100);
    s.lifecycle(&LifecycleEvent::WidgetAdded);
    let mut data: i64 = 0;
    // The knob was never painted: it sits at the origin, far from x = 60.
    let resp = s.event(&PointerEvent::Down { x: 60, y: 10 }, &idle_host(), &mut data, 20, 120);
    assert_eq!(resp.set_active, Some(true));
    assert!(resp.request_paint);
    assert_eq!(s.x_offset, 0);
    assert_eq!(data, 50);
}

#[test]
fn press_on_the_knob_records_the_grab_offset() {
    let mut s = Slider::new().with_range(0, 100);
    s.lifecycle(&LifecycleEvent::WidgetAdded);
    let mut data: i64 = 0;
    // Knob centre is at the origin; (5, 5) lies inside a circle of
    // diameter 20 around it.
    let resp = s.event(&PointerEvent::Down { x: 5, y: 5 }, &idle_host(), &mut data, 20, 120);
    assert_eq!(resp.set_active, Some(true));
    assert!(resp.request_paint);
    assert_eq!(s.x_offset, -5);
    assert_eq!(data, 0);
}

#[test]
fn press_while_disabled_does_nothing() {
    let mut s = Slider::new().with_range(0, 100);
    s.lifecycle(&LifecycleEvent::WidgetAdded);
    let mut data: i64 = 7;
    let host = HostFlags { active: false, hot: false, disabled: true };
    let resp = s.event(&PointerEvent::Down { x: 60, y: 10 }, &host, &mut data, 20, 120);
    assert_eq!(resp.set_active, None);
    assert!(!resp.request_paint);
    assert_eq!(data, 7);
}

#[test]
fn drag_recomputes_the_value_with_the_grab_offset() {
    let mut s = Slider::new().with_range(0, 100);
    s.lifecycle(&LifecycleEvent::WidgetAdded);
    let mut data: i64 = 0;
    s.event(&PointerEvent::Down { x: 5, y: 5 }, &idle_host(), &mut data, 20, 120);
    assert_eq!(s.x_offset, -5);
    let dragging = HostFlags { active: true, hot: true, disabled: false };
    let resp = s.event(&PointerEvent::Move { x: 65, y: 10 }, &dragging, &mut data, 20, 120);
    assert!(resp.request_paint);
    assert_eq!(resp.set_active, None);
    // Effective pointer 65 - 5 = 60: the middle of the usable track.
    assert_eq!(data, 50);
}

#[test]
fn motion_while_disabled_forces_release() {
    let mut s = Slider::new().with_range(0, 100);
    s.lifecycle(&LifecycleEvent::WidgetAdded);
    let mut data: i64 = 7;
    let host = HostFlags { active: true, hot: true, disabled: true };
    let resp = s.event(&PointerEvent::Move { x: 60, y: 10 }, &host, &mut data, 20, 120);
    assert_eq!(resp.set_active, Some(false));
    assert!(!resp.request_paint);
    assert_eq!(data, 7);
}

#[test]
fn hover_change_requests_repaint_only_once() {
    let mut s = Slider::new().with_range(0, 100);
    s.lifecycle(&LifecycleEvent::WidgetAdded);
    let mut data: i64 = 0;
    let host = HostFlags { active: false, hot: true, disabled: false };
    // Knob centre at the origin; (3, 4) is 5 units away, inside radius 10.
    let enter = s.event(&PointerEvent::Move { x: 3, y: 4 }, &host, &mut data, 20, 120);
    assert!(enter.request_paint);
    assert!(s.knob_hovered);
    let stay = s.event(&PointerEvent::Move { x: 4, y: 3 }, &host, &mut data, 20, 120);
    assert!(!stay.request_paint);
    let leave = s.event(&PointerEvent::Move { x: 50, y: 10 }, &host, &mut data, 20, 120);
    assert!(leave.request_paint);
    assert!(!s.knob_hovered);
    assert_eq!(data, 0);
}

#[test]
fn release_recomputes_once_and_deactivates() {
    let mut s = Slider::new().with_range(0, 100);
    s.lifecycle(&LifecycleEvent::WidgetAdded);
    let mut data: i64 = 0;
    let host = HostFlags { active: true, hot: true, disabled: false };
    let resp = s.event(&PointerEvent::Up { x: 90, y: 10 }, &host, &mut data, 20, 120);
    assert_eq!(resp.set_active, Some(false));
    assert!(resp.request_paint);
    assert_eq!(data, 80);
}

#[test]
fn release_while_inactive_only_deactivates() {
    let mut s = Slider::new().with_range(0, 100);
    s.lifecycle(&LifecycleEvent::WidgetAdded);
    let mut data: i64 = 42;
    let resp = s.event(&PointerEvent::Up { x: 90, y: 10 }, &idle_host(), &mut data, 20, 120);
    assert_eq!(resp.set_active, Some(false));
    assert!(!resp.request_paint);
    assert_eq!(data, 42);
}

#[test]
fn knob_boundary_counts_as_hit() {
    let mut s = Slider::new().with_range(0, 100);
    s.lifecycle(&LifecycleEvent::WidgetAdded);
    let host = idle_host();
    let mut data: i64 = 50;
    let plan = s.paint(data, &host, 20, 120);
    assert_eq!(plan.knob_center, Point { x: 60, y: 10 });
    // Exactly one radius away horizontally: on the boundary.
    assert!(s.knob_hit_test(20, Point { x: 70, y: 10 }));
    assert!(!s.knob_hit_test(20, Point { x: 71, y: 10 }));
}

#[test]
fn host_status_lifecycle_changes_request_repaint() {
    let mut s = Slider::new();
    s.lifecycle(&LifecycleEvent::WidgetAdded);
    assert!(s.lifecycle(&LifecycleEvent::DisabledChanged));
    assert!(s.lifecycle(&LifecycleEvent::HotChanged));
    assert!(s.lifecycle(&LifecycleEvent::FocusChanged));
    assert!(!s.lifecycle(&LifecycleEvent::Other));
}

#[test]
fn update_always_requests_repaint() {
    let s = Slider::new();
    assert!(s.update());
}

#[test]
fn layout_constrains_the_themed_size_and_reports_baseline() {
    let s = Slider::new();
    let bc = BoxConstraints { min_width: 0, min_height: 0, max_width: 50, max_height: 500 };
    let out = s.layout(&bc, 30, 200);
    assert_eq!((out.size.width, out.size.height), (50, 30));
    // height / 2 - track thickness
    assert_eq!(out.baseline_offset, 11);
}

#[test]
fn paint_places_the_knob_and_track() {
    let mut s = Slider::new().with_range(0, 100);
    s.lifecycle(&LifecycleEvent::WidgetAdded);
    let plan = s.paint(50, &idle_host(), 20, 120);
    assert_eq!(plan.knob_center, Point { x: 60, y: 10 });
    assert_eq!(s.knob_pos, plan.knob_center);
    assert_eq!(plan.knob_radius, 9);
    assert_eq!((plan.track_x0, plan.track_y0), (9, 7));
    assert_eq!((plan.track_x1, plan.track_y1), (111, 13));
    assert_eq!(plan.knob_fill, KnobFill::Idle);
    assert!(!plan.knob_border_bright);
}

#[test]
fn paint_reflects_the_host_state() {
    let mut s = Slider::new().with_range(0, 100);
    s.lifecycle(&LifecycleEvent::WidgetAdded);
    let active = HostFlags { active: true, hot: true, disabled: false };
    let plan = s.paint(0, &active, 20, 120);
    assert_eq!(plan.knob_fill, KnobFill::Active);
    assert!(plan.knob_border_bright);
    let disabled = HostFlags { active: true, hot: true, disabled: true };
    let plan2 = s.paint(0, &disabled, 20, 120);
    assert_eq!(plan2.knob_fill, KnobFill::Disabled);
    assert!(!plan2.knob_border_bright);
    assert_eq!(plan2.knob_center, Point { x: 10, y: 10 });
}

#[test]
fn full_session_follows_the_staged_contract() {
    // A host drives the widget through its staged call sequence:
    // lifecycle, layout, paint, then events with a paint after each
    // repaint request.
    let mut s = Slider::new().with_range(0, 100).with_step(10);
    let mut data: i64 = 0;
    let mut host = HostFlags { active: false, hot: true, disabled: false };

    assert!(!s.lifecycle(&LifecycleEvent::WidgetAdded));
    let bc = BoxConstraints { min_width: 0, min_height: 0, max_width: 500, max_height: 500 };
    let out = s.layout(&bc, 20, 120);
    assert_eq!((out.size.width, out.size.height), (120, 20));
    assert_eq!(out.baseline_offset, 6);
    let plan = s.paint(data, &host, 20, 120);
    assert_eq!(plan.knob_center, Point { x: 10, y: 10 });

    // Press exactly on the painted knob: a grab, the value keeps still.
    let press = s.event(&PointerEvent::Down { x: 10, y: 10 }, &host, &mut data, 20, 120);
    assert_eq!(press.set_active, Some(true));
    assert_eq!(data, 0);
    host.active = true;

    // Drag to the middle: the value snaps to the step grid.
    let drag = s.event(&PointerEvent::Move { x: 70, y: 10 }, &host, &mut data, 20, 120);
    assert!(drag.request_paint);
    assert_eq!(data, 60);
    assert!(s.update());
    let plan = s.paint(data, &host, 20, 120);
    assert_eq!(plan.knob_center, Point { x: 70, y: 10 });
    assert_eq!(plan.knob_fill, KnobFill::Active);

    // Release slightly further right: one final recompute, then idle.
    let release = s.event(&PointerEvent::Up { x: 75, y: 10 }, &host, &mut data, 20, 120);
    assert_eq!(release.set_active, Some(false));
    assert_eq!(data, 70);
    host.active = false;
    let plan = s.paint(data, &host, 20, 120);
    assert_eq!(plan.knob_center, Point { x: 80, y: 10 });
    assert_eq!(plan.knob_fill, KnobFill::Idle);
}

#[test]
fn degenerate_range_paints_the_knob_at_the_left_end() {
    let mut s = Slider::new().with_range(5, 5);
    s.lifecycle(&LifecycleEvent::WidgetAdded);
    let plan = s.paint(5, &idle_host(), 20, 120);
    assert_eq!(plan.knob_center, Point { x: 10, y: 10 });
}
