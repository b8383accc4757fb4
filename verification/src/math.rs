//! Exact integer arithmetic used by the value mapper.
//!
//! The widget's continuous formulas divide by the usable track length and by
//! two. This module provides the single rounding rule the crate applies to
//! such quotients — round to the nearest integer, halves rounding up — as a
//! spec function, an executable counterpart, and the lemmas the mapper's
//! proofs rest on.

use vstd::prelude::*;
use vstd::arithmetic::div_mod::lemma_div_is_ordered;
use vstd::arithmetic::div_mod::lemma_fundamental_div_mod;
use vstd::arithmetic::div_mod::lemma_fundamental_div_mod_converse_div;
use vstd::arithmetic::div_mod::lemma_mod_bound;

verus! {

/// `v` forced into the interval `[lo, hi]`.
pub open spec fn clamped(v: int, lo: int, hi: int) -> int {
    if v < lo {
        lo
    } else if v > hi {
        hi
    } else {
        v
    }
}

/// `num / den` rounded to the nearest integer, halves rounding up.
/// Meaningful for `den > 0`.
pub open spec fn div_round(num: int, den: int) -> int {
    (2 * num + den) / (2 * den)
}

/// Rounding a quotient that is exact returns the exact quotient.
pub proof fn lemma_div_round_exact(c: int, den: int)
    requires
        den > 0,
    ensures
        div_round(c * den, den) == c,
{
    assert(2 * (c * den) + den == c * (2 * den) + den) by (nonlinear_arith);
    lemma_fundamental_div_mod_converse_div(2 * (c * den) + den, 2 * den, c, den);
}

/// Rounding is monotone in the numerator.
pub proof fn lemma_div_round_monotone(n1: int, n2: int, den: int)
    requires
        den > 0,
        n1 <= n2,
    ensures
        div_round(n1, den) <= div_round(n2, den),
{
    lemma_div_is_ordered(2 * n1 + den, 2 * n2 + den, 2 * den);
}

/// The rounded quotient differs from the exact quotient by at most half a
/// unit: `-den <= 2 * (num - den * div_round(num, den)) < den`.
pub proof fn lemma_div_round_err(num: int, den: int)
    requires
        den > 0,
    ensures
        -den <= 2 * (num - den * div_round(num, den)) < den,
{
    let q = div_round(num, den);
    lemma_fundamental_div_mod(2 * num + den, 2 * den);
    lemma_mod_bound(2 * num + den, 2 * den);
    assert((2 * den) * q == 2 * (den * q)) by (nonlinear_arith);
}

/// A numerator between `0` and `c * den` rounds to a quotient between `0`
/// and `c`.
pub proof fn lemma_div_round_bounds(num: int, c: int, den: int)
    requires
        den > 0,
        0 <= num,
        num <= c * den,
    ensures
        0 <= div_round(num, den) <= c,
{
    lemma_div_round_exact(0, den);
    lemma_div_round_monotone(0, num, den);
    lemma_div_round_exact(c, den);
    lemma_div_round_monotone(num, c * den, den);
}

/// Product of two unsigned 128-bit intermediates that are known to be small
/// enough not to overflow.
pub fn mul_u128(a: u128, b: u128) -> (r: u128)
    requires
        a < 0x10000000000000000,
        b < 0x10000000000000000,
    ensures
        r as int == a as int * b as int,
{
    proof {
        assert(a as int * b as int <= u128::MAX as int) by (nonlinear_arith)
            requires
                0 <= (a as int) < 0x10000000000000000,
                0 <= (b as int) < 0x10000000000000000,
        ;
    }
    a * b
}

/// Executable form of [`div_round`] on unsigned 128-bit intermediates.
pub fn div_round_u128(num: u128, den: u128) -> (r: u128)
    requires
        0 < den,
        num < 0x1000000000000000000000000000000,
        den < 0x1000000000000000000000000000000,
    ensures
        r as int == div_round(num as int, den as int),
{
    (2 * num + den) / (2 * den)
}

} // verus!
