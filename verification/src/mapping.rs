//! The value mapper's mathematics.
//!
//! A pointer x-coordinate is turned into a scalar in `[0, 1]`, written as the
//! exact fraction `scalar_num / scalar_den`, and the scalar into a data value
//! inside the configured range `[min, max]`. With stepping enabled the value
//! snaps to `min + k * step`, except that `max` itself always stays reachable
//! even when `max - min` is not a multiple of `step`. The lemmas here
//! establish the range, the step alignment and the monotonicity of that
//! mapping; the widget's executable methods carry them into their contracts.

use vstd::prelude::*;
use vstd::arithmetic::div_mod::lemma_div_is_ordered;
use vstd::arithmetic::div_mod::lemma_fundamental_div_mod;
use vstd::arithmetic::div_mod::lemma_mod_bound;
use vstd::arithmetic::div_mod::lemma_mod_multiples_basic;
use vstd::arithmetic::mul::lemma_mul_inequality;
use vstd::arithmetic::mul::lemma_mul_nonnegative;

use crate::math::clamped;
use crate::math::div_round;
use crate::math::lemma_div_round_bounds;
use crate::math::lemma_div_round_exact;
use crate::math::lemma_div_round_monotone;

verus! {

/// Twice the usable track length: the denominator of the pointer scalar.
/// Doubling keeps the half knob width in the numerator an exact integer.
pub open spec fn scalar_den(knob: int, width: int) -> int {
    2 * (width - knob)
}

/// Numerator of the pointer scalar: `pointer_x + x_offset - knob / 2`,
/// doubled and clamped into `[0, scalar_den]`.
pub open spec fn scalar_num(pointer_x: int, x_offset: int, knob: int, width: int) -> int {
    clamped(2 * (pointer_x + x_offset) - knob, 0, scalar_den(knob, width))
}

/// Largest step-aligned offset from `min` that does not exceed the range:
/// `floor((max - min) / step) * step`.
pub open spec fn max_step_offset(min: int, max: int, step: int) -> int {
    ((max - min) / step) * step
}

/// Value produced without stepping: `min + scalar * (max - min)`, rounded to
/// the nearest unit.
pub open spec fn continuous_value(min: int, max: int, num: int, den: int) -> int {
    min + div_round(num * (max - min), den)
}

/// Value produced with stepping `step > 0`. Beyond the last aligned value the
/// raw value goes to whichever of that value and `max` is closer, a tie
/// favouring `max`; otherwise it snaps to the nearest multiple of `step`
/// above `min`, never exceeding `max`.
pub open spec fn stepped_value(min: int, max: int, step: int, num: int, den: int) -> int {
    let span = max - min;
    let top = max_step_offset(min, max, step);
    if num * span > top * den {
        if 2 * (num * span) < (top + span) * den {
            min + top
        } else {
            max
        }
    } else {
        let snapped = min + div_round(num * span, den * step) * step;
        if snapped > max {
            max
        } else {
            snapped
        }
    }
}

/// The full mapping from scalar fraction to data value.
pub open spec fn mapped_value(min: int, max: int, step: Option<int>, num: int, den: int) -> int {
    match step {
        Option::None => continuous_value(min, max, num, den),
        Option::Some(s) => stepped_value(min, max, s, num, den),
    }
}

/// Denominator of the normalized scalar `(v - min) / (max - min)`: the range
/// span, or `1` when the range is degenerate so that the scalar is a defined
/// `0` rather than a division by zero.
pub open spec fn norm_den(min: int, max: int) -> int {
    if min == max {
        1
    } else {
        max - min
    }
}

/// Numerator of the normalized scalar: `clamp(v, min, max) - min`, or `0`
/// when the range is degenerate.
pub open spec fn norm_num(min: int, max: int, v: int) -> int {
    if min == max {
        0
    } else {
        clamped(v, min, max) - min
    }
}

/// Painted knob-centre x-coordinate:
/// `(width - knob) * normalize(v) + knob / 2`, rounded to the nearest unit.
pub open spec fn knob_position_x(min: int, max: int, v: int, knob: int, width: int) -> int {
    div_round(
        2 * (width - knob) * norm_num(min, max, v) + knob * norm_den(min, max),
        2 * norm_den(min, max),
    )
}

/// The painted knob centre stays on the widget: between `0` and `width`.
pub proof fn lemma_knob_position_in_range(min: int, max: int, v: int, knob: int, width: int)
    requires
        min <= max,
        0 <= knob <= width,
    ensures
        0 <= knob_position_x(min, max, v, knob, width) <= width,
{
    let den = norm_den(min, max);
    let num = norm_num(min, max, v);
    assert(0 <= num <= den);
    lemma_mul_nonnegative(2 * (width - knob), num);
    lemma_mul_nonnegative(knob, den);
    assert(2 * (width - knob) * num + knob * den <= width * (2 * den)) by (nonlinear_arith)
        requires
            0 <= num <= den,
            0 <= knob <= width,
    ;
    lemma_div_round_bounds(2 * (width - knob) * num + knob * den, width, 2 * den);
}

/// Feeding the painted knob centre back through the pointer scalar (a grab
/// exactly at the knob centre, with zero drag offset) reproduces the
/// normalized scalar up to the one unit the knob position was rounded to:
/// the two fractions differ by at most `1 / (2 * (width - knob))`.
pub proof fn lemma_normalize_roundtrip(min: int, max: int, v: int, knob: int, width: int)
    requires
        min < max,
        min <= v <= max,
        0 <= knob < width,
    ensures
        -(max - min) <= scalar_num(knob_position_x(min, max, v, knob, width), 0, knob, width) * (
        max - min) - scalar_den(knob, width) * (v - min) <= max - min,
{
    let den = max - min;
    let num = v - min;
    let sden = scalar_den(knob, width);
    let big = sden * num + knob * den;
    assert(norm_num(min, max, v) == num);
    assert(norm_den(min, max) == den);
    let kx = knob_position_x(min, max, v, knob, width);
    assert(kx == div_round(big, 2 * den));
    crate::math::lemma_div_round_err(big, 2 * den);
    // The pre-clamp numerator `t = 2 * kx - knob` satisfies
    // `t * den == sden * num + e` with `|e| <= den`.
    let t = 2 * kx - knob;
    let e = t * den - sden * num;
    assert(2 * (big - (2 * den) * kx) == -2 * e) by (nonlinear_arith)
        requires
            big == sden * num + knob * den,
            t == 2 * kx - knob,
            e == t * den - sden * num,
    ;
    assert(-den <= e <= den);
    lemma_mul_nonnegative(sden, num);
    let n2 = scalar_num(kx, 0, knob, width);
    if t < 0 {
        // Then `sden * num <= den - den == 0`, so the scalar was `0` anyway.
        assert(t * den <= -den) by (nonlinear_arith)
            requires
                t <= -1,
                den > 0,
        ;
        assert(n2 == 0);
    } else if t > sden {
        assert(n2 == sden);
        assert(sden * den >= sden * num) by (nonlinear_arith)
            requires
                num <= den,
                sden >= 0,
        ;
        assert(t * den >= sden * den + den) by (nonlinear_arith)
            requires
                t >= sden + 1,
                den > 0,
        ;
    } else {
        assert(n2 == t);
    }
}

/// The step count `floor((max - min) / step)` and its offset from `min` are
/// non-negative and the offset stays within the range.
pub proof fn lemma_max_step_offset_bounds(min: int, max: int, step: int)
    requires
        min <= max,
        step > 0,
    ensures
        0 <= max_step_offset(min, max, step) <= max - min,
        0 <= (max - min) / step,
{
    let span = max - min;
    let q = span / step;
    lemma_div_is_ordered(0, span, step);
    assert(0int / step == 0) by (nonlinear_arith)
        requires
            step > 0,
    ;
    lemma_fundamental_div_mod(span, step);
    lemma_mod_bound(span, step);
    assert(step * q == q * step) by (nonlinear_arith);
    lemma_mul_nonnegative(q, step);
}

/// Without stepping the mapped value stays inside `[min, max]`.
pub proof fn lemma_continuous_in_range(min: int, max: int, num: int, den: int)
    requires
        min <= max,
        den > 0,
        0 <= num <= den,
    ensures
        min <= continuous_value(min, max, num, den) <= max,
{
    let span = max - min;
    lemma_mul_nonnegative(num, span);
    lemma_mul_inequality(num, den, span);
    assert(den * span == span * den) by (nonlinear_arith);
    lemma_div_round_bounds(num * span, span, den);
}

/// With stepping the mapped value stays inside `[min, max]`, and it is either
/// `max` itself or exactly `min + k * step` for some integer `k >= 0`.
pub proof fn lemma_stepped_in_range(min: int, max: int, step: int, num: int, den: int)
    requires
        min <= max,
        step > 0,
        den > 0,
        0 <= num <= den,
    ensures
        min <= stepped_value(min, max, step, num, den) <= max,
        stepped_value(min, max, step, num, den) == max || (stepped_value(min, max, step, num, den)
            - min) % step == 0,
{
    let span = max - min;
    let q = span / step;
    let top = max_step_offset(min, max, step);
    lemma_max_step_offset_bounds(min, max, step);
    lemma_mod_multiples_basic(q, step);
    if num * span > top * den {
        // Both candidate results, `min + top` and `max`, lie in the range.
    } else {
        let big_den = den * step;
        assert(den * step > 0) by (nonlinear_arith)
            requires
                den > 0,
                step > 0,
        ;
        lemma_mul_nonnegative(num, span);
        assert(top == q * step);
        assert((q * step) * den == q * (den * step)) by (nonlinear_arith);
        lemma_div_round_bounds(num * span, q, big_den);
        let k = div_round(num * span, big_den);
        lemma_mod_multiples_basic(k, step);
        lemma_mul_inequality(k, q, step);
        lemma_mul_nonnegative(k, step);
    }
}

/// Range of the full mapping, for either stepping mode.
pub proof fn lemma_mapped_in_range(min: int, max: int, step: Option<int>, num: int, den: int)
    requires
        min <= max,
        den > 0,
        0 <= num <= den,
        step is Some ==> step->0 > 0,
    ensures
        min <= mapped_value(min, max, step, num, den) <= max,
{
    match step {
        Option::None => lemma_continuous_in_range(min, max, num, den),
        Option::Some(s) => lemma_stepped_in_range(min, max, s, num, den),
    }
}

/// A saturated scalar (`num == den`) maps exactly to `max`: the top of the
/// range is always reachable.
pub proof fn lemma_mapped_saturated(min: int, max: int, step: Option<int>, den: int)
    requires
        min <= max,
        den > 0,
        step is Some ==> step->0 > 0,
    ensures
        mapped_value(min, max, step, den, den) == max,
{
    let span = max - min;
    lemma_div_round_exact(span, den);
    assert(den * span == span * den) by (nonlinear_arith);
    match step {
        Option::None => {
        },
        Option::Some(s) => {
            let q = span / s;
            let top = max_step_offset(min, max, s);
            lemma_max_step_offset_bounds(min, max, s);
            let big_den = den * s;
            assert(den * s > 0) by (nonlinear_arith)
                requires
                    den > 0,
                    s > 0,
            ;
            if den * span > top * den {
                // The raw value `max` is beyond the last aligned value; the
                // tie-break keeps `max`, because `max` is at least as close:
                // 2 * span >= top + span follows from top <= span.
                lemma_mul_inequality(top + span, 2 * span, den);
                assert((2 * span) * den == 2 * (den * span)) by (nonlinear_arith);
            } else {
                // `span` itself is aligned; the snap reproduces it exactly.
                assert(den * span <= top * den);
                assert(top * den <= span * den) by (nonlinear_arith)
                    requires
                        top <= span,
                        den > 0,
                ;
                assert(top * den == den * span);
                assert(top == span) by (nonlinear_arith)
                    requires
                        top * den == span * den,
                        den > 0,
                ;
                assert(span == q * s);
                assert(den * (q * s) == q * (den * s)) by (nonlinear_arith);
                lemma_div_round_exact(q, big_den);
                assert(div_round(den * span, big_den) == q);
            }
        },
    }
}

/// The full mapping is monotone in the scalar numerator: dragging the
/// pointer right never decreases the mapped value.
pub proof fn lemma_mapped_monotone(
    min: int,
    max: int,
    step: Option<int>,
    n1: int,
    n2: int,
    den: int,
)
    requires
        min <= max,
        den > 0,
        0 <= n1 <= n2 <= den,
        step is Some ==> step->0 > 0,
    ensures
        mapped_value(min, max, step, n1, den) <= mapped_value(min, max, step, n2, den),
{
    let span = max - min;
    lemma_mul_inequality(n1, n2, span);
    match step {
        Option::None => {
            lemma_div_round_monotone(n1 * span, n2 * span, den);
        },
        Option::Some(s) => {
            let q = span / s;
            let top = max_step_offset(min, max, s);
            lemma_max_step_offset_bounds(min, max, s);
            let big_den = den * s;
            assert(den * s > 0) by (nonlinear_arith)
                requires
                    den > 0,
                    s > 0,
            ;
            assert(top == q * s);
            assert((q * s) * den == q * (den * s)) by (nonlinear_arith);
            if n1 * span > top * den {
                // Both scalars are past the last aligned value. If the lower
                // one already ties or leans towards `max`, so does the higher.
                assert(n2 * span > top * den);
                if 2 * (n1 * span) < (top + span) * den {
                    assert(min + top <= max);
                } else {
                    assert(2 * (n2 * span) >= (top + span) * den);
                }
            } else if n2 * span > top * den {
                // The lower scalar snaps to at most `min + top`; the higher
                // maps to `min + top` or `max`, both at least that.
                lemma_mul_nonnegative(n1, span);
                lemma_div_round_bounds(n1 * span, q, big_den);
                let k1 = div_round(n1 * span, big_den);
                lemma_mul_inequality(k1, q, s);
                lemma_mul_nonnegative(k1, s);
            } else {
                // Both snap; rounding and scaling by `step` are monotone.
                lemma_div_round_monotone(n1 * span, n2 * span, big_den);
                let k1 = div_round(n1 * span, big_den);
                let k2 = div_round(n2 * span, big_den);
                lemma_mul_inequality(k1, k2, s);
                lemma_mul_nonnegative(n1, span);
                lemma_div_round_bounds(n1 * span, q, big_den);
                lemma_mul_inequality(k1, q, s);
            }
        },
    }
}

} // verus!
