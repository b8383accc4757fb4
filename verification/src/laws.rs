//! The slider's general guarantees, stated once over the specification
//! functions that the widget's contracts use, and proved for every input the
//! widget accepts.

use vstd::prelude::*;

use crate::mapping::knob_position_x;
use crate::mapping::lemma_mapped_in_range;
use crate::mapping::lemma_mapped_monotone;
use crate::mapping::lemma_mapped_saturated;
use crate::mapping::lemma_normalize_roundtrip;
use crate::mapping::lemma_stepped_in_range;
use crate::mapping::norm_num;
use crate::mapping::scalar_den;
use crate::mapping::scalar_num;
use crate::widget::Slider;

verus! {

/// For every pointer position, the value the widget computes lies in
/// `[min, max]` inclusive.
pub proof fn lemma_value_in_range(slider: Slider, pointer_x: int, knob: int, width: int)
    requires
        slider.wf(),
        0 <= knob < width,
    ensures
        slider.min <= slider.value_for(pointer_x, knob, width) <= slider.max,
{
    lemma_mapped_in_range(
        slider.min as int,
        slider.max as int,
        slider.step_int(),
        scalar_num(pointer_x, slider.x_offset as int, knob, width),
        scalar_den(knob, width),
    );
}

/// With stepping enabled, every computed value except the snap to `max` is
/// congruent to `min` modulo the step.
pub proof fn lemma_step_alignment(slider: Slider, pointer_x: int, knob: int, width: int)
    requires
        slider.wf(),
        slider.step is Some,
        0 <= knob < width,
    ensures
        slider.value_for(pointer_x, knob, width) == slider.max || (slider.value_for(
            pointer_x,
            knob,
            width,
        ) - slider.min) % (slider.step->0 as int) == 0,
{
    lemma_stepped_in_range(
        slider.min as int,
        slider.max as int,
        slider.step->0 as int,
        scalar_num(pointer_x, slider.x_offset as int, knob, width),
        scalar_den(knob, width),
    );
}

/// `max` is always reachable: a pointer at or beyond the right end of the
/// usable track maps exactly to `max`, whatever the step alignment.
pub proof fn lemma_max_reachable(slider: Slider, pointer_x: int, knob: int, width: int)
    requires
        slider.wf(),
        0 <= knob < width,
        2 * (pointer_x + slider.x_offset) - knob >= scalar_den(knob, width),
    ensures
        slider.value_for(pointer_x, knob, width) == slider.max,
{
    assert(scalar_num(pointer_x, slider.x_offset as int, knob, width) == scalar_den(knob, width));
    lemma_mapped_saturated(
        slider.min as int,
        slider.max as int,
        slider.step_int(),
        scalar_den(knob, width),
    );
}

/// Dragging right never decreases the value: the computed value is monotone
/// non-decreasing in the pointer x-coordinate, for fixed geometry.
pub proof fn lemma_value_monotone(slider: Slider, x1: int, x2: int, knob: int, width: int)
    requires
        slider.wf(),
        0 <= knob < width,
        x1 <= x2,
    ensures
        slider.value_for(x1, knob, width) <= slider.value_for(x2, knob, width),
{
    lemma_mapped_monotone(
        slider.min as int,
        slider.max as int,
        slider.step_int(),
        scalar_num(x1, slider.x_offset as int, knob, width),
        scalar_num(x2, slider.x_offset as int, knob, width),
        scalar_den(knob, width),
    );
}

/// Dragging right never decreases the normalized knob scalar either: the
/// composition of `calculate_value` and `normalize` is monotone
/// non-decreasing in the pointer x-coordinate.
pub proof fn lemma_normalized_position_monotone(
    slider: Slider,
    x1: int,
    x2: int,
    knob: int,
    width: int,
)
    requires
        slider.wf(),
        0 <= knob < width,
        x1 <= x2,
    ensures
        norm_num(slider.min as int, slider.max as int, slider.value_for(x1, knob, width))
            <= norm_num(slider.min as int, slider.max as int, slider.value_for(x2, knob, width)),
{
    lemma_value_monotone(slider, x1, x2, knob, width);
}

/// Normalizing a value already in `[min, max]` with a non-degenerate range,
/// painting the knob there, and reading the pointer scalar back from the
/// painted centre (a grab exactly on the knob, zero drag offset) reproduces
/// the original scalar up to the one unit the painted position was rounded
/// to: the fractions differ by at most `1 / scalar_den`.
pub proof fn lemma_paint_roundtrip(slider: Slider, v: int, knob: int, width: int)
    requires
        slider.wf(),
        slider.min < slider.max,
        slider.min <= v <= slider.max,
        0 <= knob < width,
    ensures
        -(slider.max - slider.min) <= scalar_num(
            knob_position_x(slider.min as int, slider.max as int, v, knob, width),
            0,
            knob,
            width,
        ) * (slider.max - slider.min) - scalar_den(knob, width) * (v - slider.min) <= slider.max
            - slider.min,
{
    lemma_normalize_roundtrip(slider.min as int, slider.max as int, v, knob, width);
}

} // verus!
