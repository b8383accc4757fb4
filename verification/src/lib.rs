//! Core of an interactive slider widget, verified.
//!
//! The crate models the two halves of a slider's contract with its host:
//!
//! * a **value mapper** that turns a pointer x-coordinate plus the widget's
//!   geometry into a clamped, optionally step-aligned data value, and the
//!   inverse mapping from a data value to the painted knob position;
//! * an **interaction state tracker** that consumes pointer events together
//!   with the host-owned `active` / `hot` / `disabled` flags and decides how
//!   the data value, the hover state and the repaint requests evolve.
//!
//! All quantities are exact integers in a fixed-point unit chosen by the
//! embedding application (for instance thousandths of a pixel). Wherever the
//! continuous formulas of the widget produce a half-unit, the library rounds
//! to the nearest unit, halves rounding up; every contract states the rounded
//! result exactly.

pub mod laws;
pub mod mapping;
pub mod math;
pub mod widget;

pub use widget::BoxConstraints;
pub use widget::BORDER_WIDTH;
pub use widget::COORD_LIMIT;
pub use widget::KNOB_STROKE_WIDTH;
pub use widget::TRACK_CORNER_RADIUS;
pub use widget::TRACK_THICKNESS;
pub use widget::VALUE_LIMIT;
pub use widget::HostFlags;
pub use widget::KnobFill;
pub use widget::LayoutOutput;
pub use widget::LifecycleEvent;
pub use widget::PaintPlan;
pub use widget::Point;
pub use widget::PointerEvent;
pub use widget::Ratio;
pub use widget::Response;
pub use widget::Size;
pub use widget::Slider;
