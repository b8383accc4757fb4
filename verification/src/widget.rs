//! The slider widget: configuration, interaction state, and the staged
//! event / lifecycle / update / layout / paint contract with its host.
//!
//! The host owns the `active` / `hot` / `disabled` flags and the data value;
//! the widget receives the flags read-only with each call, mutates the data
//! value only inside the call it was passed into, and reports its demands —
//! activation changes and repaint requests — in the returned [`Response`].
//! All coordinates and values are integers in the application's fixed-point
//! unit; see the crate root.

use vstd::prelude::*;

use crate::mapping::knob_position_x;
use crate::mapping::lemma_knob_position_in_range;
use crate::mapping::lemma_mapped_in_range;
use crate::mapping::mapped_value;
use crate::mapping::norm_den;
use crate::mapping::norm_num;
use crate::mapping::scalar_den;
use crate::mapping::scalar_num;
use crate::math::clamped;
use crate::math::div_round;
use crate::math::div_round_u128;
use crate::math::lemma_div_round_bounds;
use crate::math::mul_u128;
use vstd::arithmetic::div_mod::lemma_fundamental_div_mod;
use vstd::arithmetic::div_mod::lemma_mod_bound;
use vstd::arithmetic::mul::lemma_mul_inequality;
use vstd::arithmetic::mul::lemma_mul_nonnegative;

verus! {

/// Largest magnitude of a coordinate the widget accepts, in units.
pub const COORD_LIMIT: i64 = 1_000_000_000;

/// Largest magnitude of a data value or step the widget accepts, in units.
pub const VALUE_LIMIT: i64 = 1_000_000_000;

/// Height of the painted track, in units.
pub const TRACK_THICKNESS: i64 = 4;

/// Width of the painted track border, in units.
pub const BORDER_WIDTH: i64 = 2;

/// Stroke width of the painted knob outline, in units.
pub const KNOB_STROKE_WIDTH: i64 = 2;

/// Corner radius of the painted track, in units.
pub const TRACK_CORNER_RADIUS: i64 = 2;

/// A position in the widget's coordinate space.
#[derive(Clone, Copy, Debug, PartialEq, Eq, Structural)]
pub struct Point {
    pub x: i64,
    pub y: i64,
}

/// A width and height reported to the layout system.
#[derive(Clone, Copy, Debug, PartialEq, Eq, Structural)]
pub struct Size {
    pub width: i64,
    pub height: i64,
}

/// An exact fraction in `[0, 1]`: the normalized knob position.
#[derive(Clone, Copy, Debug, PartialEq, Eq, Structural)]
pub struct Ratio {
    pub num: i64,
    pub den: i64,
}

/// The box constraints the layout system hands down: each dimension must be
/// chosen inside `[min, max]`.
#[derive(Clone, Copy, Debug, PartialEq, Eq, Structural)]
pub struct BoxConstraints {
    pub min_width: i64,
    pub min_height: i64,
    pub max_width: i64,
    pub max_height: i64,
}

impl BoxConstraints {
    /// Constraints are well-formed when each interval is non-empty,
    /// non-negative and within the coordinate limit.
    pub open spec fn wf(self) -> bool {
        &&& 0 <= self.min_width <= self.max_width <= COORD_LIMIT
        &&& 0 <= self.min_height <= self.max_height <= COORD_LIMIT
    }
}

/// The outcome of the layout pass: the chosen size and the baseline offset
/// that aligns the track with adjacent text.
#[derive(Clone, Copy, Debug, PartialEq, Eq, Structural)]
pub struct LayoutOutput {
    pub size: Size,
    pub baseline_offset: i64,
}

/// A raw pointer event, as the host delivers it.
#[derive(Clone, Copy, Debug, PartialEq, Eq, Structural)]
pub enum PointerEvent {
    Down { x: i64, y: i64 },
    Up { x: i64, y: i64 },
    Move { x: i64, y: i64 },
    Other,
}

/// A lifecycle notification from the host.
#[derive(Clone, Copy, Debug, PartialEq, Eq, Structural)]
pub enum LifecycleEvent {
    WidgetAdded,
    DisabledChanged,
    HotChanged,
    FocusChanged,
    Other,
}

/// The host-owned interaction flags, read by the widget but never written:
/// it asks for changes through [`Response::set_active`].
#[derive(Clone, Copy, Debug, PartialEq, Eq, Structural)]
pub struct HostFlags {
    pub active: bool,
    pub hot: bool,
    pub disabled: bool,
}

/// What the widget asks of the host after handling an event.
#[derive(Clone, Copy, Debug, PartialEq, Eq)]
pub struct Response {
    pub set_active: Option<bool>,
    pub request_paint: bool,
}

/// Which gradient fills the knob at paint time.
#[derive(Clone, Copy, Debug, PartialEq, Eq, Structural)]
pub enum KnobFill {
    Disabled,
    Active,
    Idle,
}

/// The paint pass's output: the shapes the renderer draws, in units.
#[derive(Clone, Copy, Debug, PartialEq, Eq, Structural)]
pub struct PaintPlan {
    /// Track rectangle after the border inset, as `x0, y0, x1, y1`.
    pub track_x0: i64,
    pub track_y0: i64,
    pub track_x1: i64,
    pub track_y1: i64,
    /// Centre of the knob; also cached as the widget's hit-test anchor.
    pub knob_center: Point,
    /// Radius of the stroked knob circle.
    pub knob_radius: i64,
    /// Gradient choice for the knob.
    pub knob_fill: KnobFill,
    /// Whether the knob outline uses the bright highlight colour.
    pub knob_border_bright: bool,
}

/// The response that asks nothing of the host.
pub open spec fn no_response() -> Response {
    Response { set_active: None, request_paint: false }
}

/// Every position a pointer event carries lies within the coordinate limit.
pub open spec fn event_in_bounds(event: PointerEvent) -> bool {
    match event {
        PointerEvent::Down { x, y } => -COORD_LIMIT <= x <= COORD_LIMIT && -COORD_LIMIT <= y
            <= COORD_LIMIT,
        PointerEvent::Up { x, y } => -COORD_LIMIT <= x <= COORD_LIMIT && -COORD_LIMIT <= y
            <= COORD_LIMIT,
        PointerEvent::Move { x, y } => -COORD_LIMIT <= x <= COORD_LIMIT && -COORD_LIMIT <= y
            <= COORD_LIMIT,
        PointerEvent::Other => true,
    }
}

/// A slider, allowing interactive update of a numeric value clamped to the
/// configured range `[min, max]`.
#[derive(Clone, Copy, Debug, PartialEq, Eq)]
pub struct Slider {
    /// Lower end of the range. May lie above `max` until the first
    /// attachment check swaps the two.
    pub min: i64,
    /// Upper end of the range.
    pub max: i64,
    /// Step size, if stepping is enabled; always positive.
    pub step: Option<i64>,
    /// Knob centre as painted last, the anchor of the circular hit region.
    pub knob_pos: Point,
    /// Whether the pointer hovered the knob when it last moved.
    pub knob_hovered: bool,
    /// Signed offset between knob centre and pointer, recorded when a drag
    /// grabs the knob so that dragging tracks the grab point.
    pub x_offset: i64,
    /// A positive-step violation was reported to the configuration call.
    pub warned_bad_step: bool,
    /// The range was found reversed at attachment and swapped.
    pub warned_swapped_range: bool,
}

impl Slider {
    /// Fields lie within the fixed-point domain. Holds from construction on;
    /// the range may still be reversed until the attachment check.
    pub open spec fn bounded(self) -> bool {
        &&& -VALUE_LIMIT <= self.min <= VALUE_LIMIT
        &&& -VALUE_LIMIT <= self.max <= VALUE_LIMIT
        &&& match self.step {
            Option::Some(s) => 0 < s <= VALUE_LIMIT,
            Option::None => true,
        }
        &&& -COORD_LIMIT <= self.knob_pos.x <= COORD_LIMIT
        &&& -COORD_LIMIT <= self.knob_pos.y <= COORD_LIMIT
        &&& -2 * COORD_LIMIT <= self.x_offset <= 2 * COORD_LIMIT
    }

    /// Well-formed for event handling and painting: bounded, and the range
    /// validated, `min <= max`.
    pub open spec fn wf(self) -> bool {
        &&& self.bounded()
        &&& self.min <= self.max
    }

    /// The step configuration as a mathematical option.
    pub open spec fn step_int(self) -> Option<int> {
        match self.step {
            Option::Some(s) => Option::Some(s as int),
            Option::None => Option::None,
        }
    }

    /// The data value this widget computes for a pointer at `pointer_x`,
    /// with its current drag offset and the given geometry.
    pub open spec fn value_for(self, pointer_x: int, knob: int, width: int) -> int {
        mapped_value(
            self.min as int,
            self.max as int,
            self.step_int(),
            scalar_num(pointer_x, self.x_offset as int, knob, width),
            scalar_den(knob, width),
        )
    }

    /// Whether a pointer position hits the knob's circular region: inside or
    /// on the circle of diameter `knob` centred at the last painted knob
    /// position. The boundary counts as a hit.
    pub open spec fn knob_hit(self, knob: int, px: int, py: int) -> bool {
        let dx = px - self.knob_pos.x;
        let dy = py - self.knob_pos.y;
        4 * (dx * dx + dy * dy) <= knob * knob
    }

    /// The two widgets agree on everything but the transient interaction
    /// state: configuration and warnings carry over unchanged.
    pub open spec fn same_config(self, other: Slider) -> bool {
        &&& self.min == other.min
        &&& self.max == other.max
        &&& self.step == other.step
        &&& self.warned_bad_step == other.warned_bad_step
        &&& self.warned_swapped_range == other.warned_swapped_range
    }

    /// Create a new `Slider` over the default unit range `[0, 1]` with no
    /// stepping.
    pub fn new() -> (slider: Slider)
        ensures
            slider.min == 0,
            slider.max == 1,
            slider.step is None,
            slider.knob_pos == (Point { x: 0, y: 0 }),
            !slider.knob_hovered,
            slider.x_offset == 0,
            !slider.warned_bad_step,
            !slider.warned_swapped_range,
            slider.wf(),
    {
        Slider {
            min: 0,
            max: 1,
            step: None,
            knob_pos: Point { x: 0, y: 0 },
            knob_hovered: false,
            x_offset: 0,
            warned_bad_step: false,
            warned_swapped_range: false,
        }
    }

    /// Builder-style method to set the range covered by this slider. The
    /// bounds may arrive reversed; they are swapped, with a recorded
    /// warning, when the widget is attached.
    pub fn with_range(self, min: i64, max: i64) -> (slider: Slider)
        requires
            -VALUE_LIMIT <= min <= VALUE_LIMIT,
            -VALUE_LIMIT <= max <= VALUE_LIMIT,
        ensures
            slider.min == min,
            slider.max == max,
            slider == (Slider { min, max, ..self }),
    {
        Slider { min, max, ..self }
    }

    /// Builder-style method to set the stepping. A negative step is rejected
    /// with a recorded warning and leaves the prior stepping; a zero step
    /// means no stepping.
    pub fn with_step(self, step: i64) -> (slider: Slider)
        requires
            step <= VALUE_LIMIT,
        ensures
            step < 0 ==> slider == (Slider { warned_bad_step: true, ..self }),
            step == 0 ==> slider == (Slider { step: None, ..self }),
            step > 0 ==> slider == (Slider { step: Some(step), ..self }),
    {
        if step < 0 {
            return Slider { warned_bad_step: true, ..self };
        }
        if step > 0 {
            Slider { step: Some(step), ..self }
        } else {
            Slider { step: None, ..self }
        }
    }

    /// Validate `min <= max`; if the range is reversed, swap the bounds and
    /// record a warning.
    fn check_range(&mut self)
        ensures
            old(self).max < old(self).min ==> *final(self) == (Slider {
                min: old(self).max,
                max: old(self).min,
                warned_swapped_range: true,
                ..*old(self)
            }),
            old(self).min <= old(self).max ==> *final(self) == *old(self),
    {
        if self.max < self.min {
            let t = self.min;
            self.min = self.max;
            self.max = t;
            self.warned_swapped_range = true;
        }
    }

    /// Whether `mouse_pos` hits the knob's circular hit region.
    pub fn knob_hit_test(&self, knob_width: i64, mouse_pos: Point) -> (hit: bool)
        requires
            self.bounded(),
            0 <= knob_width <= COORD_LIMIT,
            -COORD_LIMIT <= mouse_pos.x <= COORD_LIMIT,
            -COORD_LIMIT <= mouse_pos.y <= COORD_LIMIT,
        ensures
            hit == self.knob_hit(knob_width as int, mouse_pos.x as int, mouse_pos.y as int),
    {
        let dx: i128 = mouse_pos.x as i128 - self.knob_pos.x as i128;
        let dy: i128 = mouse_pos.y as i128 - self.knob_pos.y as i128;
        let k: i128 = knob_width as i128;
        proof {
            assert(0 <= dx * dx <= 4000000000000000000) by (nonlinear_arith)
                requires
                    -2000000000 <= dx <= 2000000000,
            ;
            assert(0 <= dy * dy <= 4000000000000000000) by (nonlinear_arith)
                requires
                    -2000000000 <= dy <= 2000000000,
            ;
            assert(0 <= k * k <= 1000000000000000000) by (nonlinear_arith)
                requires
                    0 <= k <= 1000000000,
            ;
        }
        4 * (dx * dx + dy * dy) <= k * k
    }

    /// Map a pointer x-coordinate to a data value: the pointer scalar along
    /// the usable track, scaled into `[min, max]` and snapped to the step
    /// grid when stepping is enabled. The result always lies in
    /// `[min, max]`.
    pub fn calculate_value(&self, mouse_x: i64, knob_width: i64, slider_width: i64) -> (value:
        i64)
        requires
            self.wf(),
            0 <= knob_width < slider_width <= COORD_LIMIT,
            -COORD_LIMIT <= mouse_x <= COORD_LIMIT,
        ensures
            value as int == self.value_for(mouse_x as int, knob_width as int, slider_width as int),
            self.min <= value <= self.max,
    {
        let ghost gnum = scalar_num(
            mouse_x as int,
            self.x_offset as int,
            knob_width as int,
            slider_width as int,
        );
        let ghost gden = scalar_den(knob_width as int, slider_width as int);
        proof {
            lemma_mapped_in_range(
                self.min as int,
                self.max as int,
                self.step_int(),
                gnum,
                gden,
            );
        }
        let half: i64 = slider_width - knob_width;
        let t: i64 = 2 * (mouse_x + self.x_offset) - knob_width;
        let tc: i64 = if t < 0 {
            0
        } else if t > 2 * half {
            2 * half
        } else {
            t
        };
        assert(tc as int == gnum);
        let num: u128 = tc as u128;
        let den: u128 = (2 * half) as u128;
        let span_i: i64 = self.max - self.min;
        let span: u128 = span_i as u128;
        match self.step {
            None => {
                let prod = mul_u128(num, span);
                proof {
                    assert(prod as int <= 8000000000000000000) by (nonlinear_arith)
                        requires
                            prod as int == num as int * span as int,
                            0 <= (num as int) <= 4000000000,
                            0 <= (span as int) <= 2000000000,
                    ;
                }
                let off = div_round_u128(prod, den);
                proof {
                    assert(div_round(gnum * (span as int), gden) == self.value_for(
                        mouse_x as int,
                        knob_width as int,
                        slider_width as int,
                    ) - self.min);
                }
                self.min + (off as i64)
            },
            Some(s) => {
                let ghost gtop = crate::mapping::max_step_offset(
                    self.min as int,
                    self.max as int,
                    s as int,
                );
                let su: u128 = s as u128;
                let q: u128 = span / su;
                proof {
                    lemma_fundamental_div_mod(span as int, su as int);
                    lemma_mod_bound(span as int, su as int);
                    assert((su as int) * (q as int) == (q as int) * (su as int))
                        by (nonlinear_arith);
                    lemma_mul_inequality(1, su as int, q as int);
                }
                let top = mul_u128(q, su);
                assert(top as int == gtop);
                let prod = mul_u128(num, span);
                proof {
                    assert(prod as int <= 8000000000000000000) by (nonlinear_arith)
                        requires
                            prod as int == num as int * span as int,
                            0 <= (num as int) <= 4000000000,
                            0 <= (span as int) <= 2000000000,
                    ;
                }
                let topden = mul_u128(top, den);
                if prod > topden {
                    let rhs = mul_u128(top + span, den);
                    if 2 * prod < rhs {
                        self.min + (top as i64)
                    } else {
                        self.max
                    }
                } else {
                    let bden = mul_u128(den, su);
                    proof {
                        assert(bden as int <= 4000000000000000000) by (nonlinear_arith)
                            requires
                                bden as int == den as int * su as int,
                                0 <= (den as int) <= 4000000000,
                                0 <= (su as int) <= 1000000000,
                        ;
                        assert(bden as int > 0) by (nonlinear_arith)
                            requires
                                den as int > 0,
                                su as int > 0,
                                bden as int == den as int * su as int,
                        ;
                        assert((top as int) * (den as int) == (q as int) * (bden as int))
                            by (nonlinear_arith)
                            requires
                                top as int == q as int * su as int,
                                bden as int == den as int * su as int,
                        ;
                        lemma_mul_nonnegative(num as int, span as int);
                        lemma_div_round_bounds(prod as int, q as int, bden as int);
                    }
                    let kq = div_round_u128(prod, bden);
                    let snapped_off = mul_u128(kq, su);
                    proof {
                        lemma_mul_inequality(kq as int, q as int, su as int);
                        lemma_mul_nonnegative(kq as int, su as int);
                    }
                    let snapped: i64 = self.min + (snapped_off as i64);
                    if snapped > self.max {
                        self.max
                    } else {
                        snapped
                    }
                }
            },
        }
    }

    /// Normalize a data value to the exact fraction
    /// `(clamp(value, min, max) - min) / (max - min)` of the range, the
    /// scalar knob position. A degenerate range `min == max` yields the
    /// defined fallback `0`.
    pub fn normalize(&self, data: i64) -> (r: Ratio)
        requires
            self.wf(),
        ensures
            r.num as int == norm_num(self.min as int, self.max as int, data as int),
            r.den as int == norm_den(self.min as int, self.max as int),
            0 <= r.num <= r.den,
            1 <= r.den <= 2 * VALUE_LIMIT,
    {
        if self.min == self.max {
            Ratio { num: 0, den: 1 }
        } else {
            let c: i64 = if data < self.min {
                self.min
            } else if data > self.max {
                self.max
            } else {
                data
            };
            Ratio { num: c - self.min, den: self.max - self.min }
        }
    }

    /// Handle a pointer event.
    ///
    /// A press activates the widget: on the knob it records the grab offset,
    /// elsewhere it jumps the value to the pointer. While active, motion and
    /// the final release recompute the value from the pointer plus the
    /// recorded offset. Motion over a hot widget re-evaluates knob hovering,
    /// repainting only on a change, and a disabled widget is forced inactive
    /// by the next motion. The data value is only ever replaced by a value
    /// in `[min, max]`.
    pub fn event(
        &mut self,
        event: &PointerEvent,
        host: &HostFlags,
        data: &mut i64,
        knob_size: i64,
        slider_width: i64,
    ) -> (resp: Response)
        requires
            old(self).wf(),
            0 <= knob_size < slider_width <= COORD_LIMIT,
            event_in_bounds(*event),
        ensures
            final(self).same_config(*old(self)),
            final(self).knob_pos == old(self).knob_pos,
            final(self).wf(),
            match *event {
                PointerEvent::Down { x, y } => if host.disabled {
                    &&& *final(self) == *old(self)
                    &&& *final(data) == *old(data)
                    &&& resp == no_response()
                } else {
                    &&& resp.set_active == Some(true)
                    &&& resp.request_paint
                    &&& final(self).knob_hovered == old(self).knob_hovered
                    &&& if old(self).knob_hit(knob_size as int, x as int, y as int) {
                        &&& final(self).x_offset == old(self).knob_pos.x - x
                        &&& *final(data) == *old(data)
                    } else {
                        &&& final(self).x_offset == 0
                        &&& *final(data) as int == final(self).value_for(
                            x as int,
                            knob_size as int,
                            slider_width as int,
                        )
                        &&& old(self).min <= *final(data) <= old(self).max
                    }
                },
                PointerEvent::Up { x, y } => {
                    &&& *final(self) == *old(self)
                    &&& resp.set_active == Some(false)
                    &&& if host.active && !host.disabled {
                        &&& *final(data) as int == old(self).value_for(
                            x as int,
                            knob_size as int,
                            slider_width as int,
                        )
                        &&& old(self).min <= *final(data) <= old(self).max
                        &&& resp.request_paint
                    } else {
                        &&& *final(data) == *old(data)
                        &&& !resp.request_paint
                    }
                },
                PointerEvent::Move { x, y } => if host.disabled {
                    &&& *final(self) == *old(self)
                    &&& *final(data) == *old(data)
                    &&& resp.set_active == Some(false)
                    &&& !resp.request_paint
                } else {
                    &&& resp.set_active is None
                    &&& final(self).x_offset == old(self).x_offset
                    &&& if host.active {
                        &&& *final(data) as int == old(self).value_for(
                            x as int,
                            knob_size as int,
                            slider_width as int,
                        )
                        &&& old(self).min <= *final(data) <= old(self).max
                    } else {
                        *final(data) == *old(data)
                    }
                    &&& if host.hot {
                        final(self).knob_hovered == old(self).knob_hit(
                            knob_size as int,
                            x as int,
                            y as int,
                        )
                    } else {
                        final(self).knob_hovered == old(self).knob_hovered
                    }
                    &&& resp.request_paint == (host.active || (host.hot && old(self).knob_hit(
                        knob_size as int,
                        x as int,
                        y as int,
                    ) != old(self).knob_hovered))
                },
                PointerEvent::Other => {
                    &&& *final(self) == *old(self)
                    &&& *final(data) == *old(data)
                    &&& resp == no_response()
                },
            },
    {
        match *event {
            PointerEvent::Down { x, y } => {
                if !host.disabled {
                    if self.knob_hit_test(knob_size, Point { x, y }) {
                        self.x_offset = self.knob_pos.x - x;
                    } else {
                        self.x_offset = 0;
                        *data = self.calculate_value(x, knob_size, slider_width);
                    }
                    Response { set_active: Some(true), request_paint: true }
                } else {
                    Response { set_active: None, request_paint: false }
                }
            },
            PointerEvent::Up { x, y } => {
                if host.active && !host.disabled {
                    *data = self.calculate_value(x, knob_size, slider_width);
                    Response { set_active: Some(false), request_paint: true }
                } else {
                    Response { set_active: Some(false), request_paint: false }
                }
            },
            PointerEvent::Move { x, y } => {
                if !host.disabled {
                    let mut repaint = false;
                    if host.active {
                        *data = self.calculate_value(x, knob_size, slider_width);
                        repaint = true;
                    }
                    if host.hot {
                        let hover = self.knob_hit_test(knob_size, Point { x, y });
                        if hover != self.knob_hovered {
                            self.knob_hovered = hover;
                            repaint = true;
                        }
                    }
                    Response { set_active: None, request_paint: repaint }
                } else {
                    Response { set_active: Some(false), request_paint: false }
                }
            },
            PointerEvent::Other => Response { set_active: None, request_paint: false },
        }
    }

    /// Handle a lifecycle notification. Attachment validates the range —
    /// reversed bounds are swapped with a recorded warning — and a change of
    /// the host-owned disabled / hot / focus status asks for an
    /// unconditional repaint.
    pub fn lifecycle(&mut self, event: &LifecycleEvent) -> (request_paint: bool)
        requires
            old(self).bounded(),
        ensures
            final(self).bounded(),
            match *event {
                LifecycleEvent::WidgetAdded => {
                    &&& if old(self).max < old(self).min {
                        *final(self) == (Slider {
                            min: old(self).max,
                            max: old(self).min,
                            warned_swapped_range: true,
                            ..*old(self)
                        })
                    } else {
                        *final(self) == *old(self)
                    }
                    &&& final(self).wf()
                    &&& !request_paint
                },
                LifecycleEvent::DisabledChanged => *final(self) == *old(self) && request_paint,
                LifecycleEvent::HotChanged => *final(self) == *old(self) && request_paint,
                LifecycleEvent::FocusChanged => *final(self) == *old(self) && request_paint,
                LifecycleEvent::Other => *final(self) == *old(self) && !request_paint,
            },
    {
        match *event {
            LifecycleEvent::WidgetAdded => {
                self.check_range();
                false
            },
            LifecycleEvent::DisabledChanged => true,
            LifecycleEvent::HotChanged => true,
            LifecycleEvent::FocusChanged => true,
            LifecycleEvent::Other => false,
        }
    }

    /// Handle a data change: the widget always repaints, since the knob
    /// position depends on the value.
    pub fn update(&self) -> (request_paint: bool)
        ensures
            request_paint,
    {
        true
    }

    /// Report the widget's size to the layout system: the themed width and
    /// height tokens, constrained by the box the host hands down, with a
    /// baseline offset of half the height minus the track thickness.
    pub fn layout(&self, bc: &BoxConstraints, height: i64, width: i64) -> (out: LayoutOutput)
        requires
            bc.wf(),
            0 <= height <= COORD_LIMIT,
            0 <= width <= COORD_LIMIT,
        ensures
            out.size.width as int == clamped(width as int, bc.min_width as int, bc.max_width as int),
            out.size.height as int == clamped(
                height as int,
                bc.min_height as int,
                bc.max_height as int,
            ),
            out.baseline_offset as int == div_round(height as int, 2) - TRACK_THICKNESS,
    {
        let w: i64 = if width < bc.min_width {
            bc.min_width
        } else if width > bc.max_width {
            bc.max_width
        } else {
            width
        };
        let h: i64 = if height < bc.min_height {
            bc.min_height
        } else if height > bc.max_height {
            bc.max_height
        } else {
            height
        };
        proof {
            lemma_div_round_bounds(height as int, height as int, 2);
        }
        let half_height = div_round_u128(height as u128, 2);
        LayoutOutput {
            size: Size { width: w, height: h },
            baseline_offset: (half_height as i64) - TRACK_THICKNESS,
        }
    }

    /// Produce the paint pass's shapes: the inset track rectangle and the
    /// knob circle at the normalized value, with the state-dependent fill
    /// and outline choices. The knob centre is cached as the anchor of the
    /// next hit-test.
    pub fn paint(&mut self, data: i64, host: &HostFlags, knob_size: i64, width: i64) -> (plan:
        PaintPlan)
        requires
            old(self).wf(),
            TRACK_THICKNESS <= knob_size <= width <= COORD_LIMIT,
        ensures
            final(self).same_config(*old(self)),
            final(self).knob_hovered == old(self).knob_hovered,
            final(self).x_offset == old(self).x_offset,
            final(self).knob_pos == plan.knob_center,
            final(self).wf(),
            plan.knob_center.x as int == knob_position_x(
                old(self).min as int,
                old(self).max as int,
                data as int,
                knob_size as int,
                width as int,
            ),
            0 <= plan.knob_center.x <= width,
            plan.knob_center.y as int == div_round(knob_size as int, 2),
            plan.knob_radius as int == div_round(knob_size as int - KNOB_STROKE_WIDTH, 2),
            plan.track_x0 as int == div_round(knob_size as int, 2) - BORDER_WIDTH / 2,
            plan.track_y0 as int == div_round(knob_size as int - TRACK_THICKNESS, 2) - BORDER_WIDTH
                / 2,
            plan.track_x1 as int == div_round(knob_size as int, 2) + (width - knob_size)
                + BORDER_WIDTH / 2,
            plan.track_y1 as int == div_round(knob_size as int - TRACK_THICKNESS, 2)
                + TRACK_THICKNESS + BORDER_WIDTH / 2,
            plan.knob_fill == (if host.disabled {
                KnobFill::Disabled
            } else if host.active {
                KnobFill::Active
            } else {
                KnobFill::Idle
            }),
            plan.knob_border_bright == ((old(self).knob_hovered || host.active) && !host.disabled),
    {
        let r = self.normalize(data);
        proof {
            lemma_div_round_bounds(knob_size as int, knob_size as int, 2);
            lemma_div_round_bounds(
                knob_size as int - TRACK_THICKNESS,
                knob_size as int,
                2,
            );
            lemma_div_round_bounds(
                knob_size as int - KNOB_STROKE_WIDTH,
                knob_size as int,
                2,
            );
            lemma_knob_position_in_range(
                self.min as int,
                self.max as int,
                data as int,
                knob_size as int,
                width as int,
            );
        }
        let half_knob = div_round_u128(knob_size as u128, 2) as i64;
        let track_top = div_round_u128((knob_size - TRACK_THICKNESS) as u128, 2) as i64;
        let knob_radius = div_round_u128((knob_size - KNOB_STROKE_WIDTH) as u128, 2) as i64;
        let track_len: i64 = width - knob_size;
        let a = mul_u128((2 * track_len) as u128, r.num as u128);
        let b = mul_u128(knob_size as u128, r.den as u128);
        proof {
            assert(a as int <= 4000000000000000000) by (nonlinear_arith)
                requires
                    a as int == (2 * track_len) as int * r.num as int,
                    0 <= ((2 * track_len) as int) <= 2000000000,
                    0 <= (r.num as int) <= 2000000000,
            ;
            assert(b as int <= 2000000000000000000) by (nonlinear_arith)
                requires
                    b as int == knob_size as int * r.den as int,
                    0 <= (knob_size as int) <= 1000000000,
                    0 <= (r.den as int) <= 2000000000,
            ;
        }
        let knob_x = div_round_u128(a + b, (2 * r.den) as u128) as i64;
        let center = Point { x: knob_x, y: half_knob };
        self.knob_pos = center;
        let fill = if host.disabled {
            KnobFill::Disabled
        } else if host.active {
            KnobFill::Active
        } else {
            KnobFill::Idle
        };
        PaintPlan {
            track_x0: half_knob - BORDER_WIDTH / 2,
            track_y0: track_top - BORDER_WIDTH / 2,
            track_x1: half_knob + track_len + BORDER_WIDTH / 2,
            track_y1: track_top + TRACK_THICKNESS + BORDER_WIDTH / 2,
            knob_center: center,
            knob_radius,
            knob_fill: fill,
            knob_border_bright: (self.knob_hovered || host.active) && !host.disabled,
        }
    }
}

} // verus!
