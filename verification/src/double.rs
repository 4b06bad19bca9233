//! The order of IEEE 754 double-precision numbers, read off their bit
//! patterns, as [`crate::single`] does for single precision.

use vstd::prelude::*;

verus! {

/// The bit pattern of positive infinity.
pub const INFINITY: u64 = 0x7ff0_0000_0000_0000;

/// The sign bit.
pub const SIGN: u64 = 0x8000_0000_0000_0000;

/// The pattern is not a number.
pub open spec fn is_nan(bits: u64) -> bool {
    if bits < SIGN {
        bits > INFINITY
    } else {
        bits - SIGN > INFINITY
    }
}

/// An integer that orders the numbers as their values do; both zeros have
/// rank 0.
pub open spec fn rank(bits: u64) -> int {
    if bits < SIGN {
        bits as int
    } else {
        SIGN - bits
    }
}

/// `a` is greater than `b`. Nothing is greater than, or less than, a pattern
/// that is not a number.
pub open spec fn above(a: u64, b: u64) -> bool {
    !is_nan(a) && !is_nan(b) && rank(a) > rank(b)
}

/// The greater of the two, and of a number and a pattern that is not one, the
/// number. Of two equal values it is `a`.
pub open spec fn larger(a: u64, b: u64) -> u64 {
    if is_nan(a) || above(b, a) {
        b
    } else {
        a
    }
}

/// The lesser of the two, and of a number and a pattern that is not one, the
/// number. Of two equal values it is `a`.
pub open spec fn smaller(a: u64, b: u64) -> u64 {
    if is_nan(a) || above(a, b) {
        b
    } else {
        a
    }
}

/// `value` moved into the range from `low` to `high`. A pattern that is not a
/// number stays.
pub open spec fn limited(value: u64, low: u64, high: u64) -> u64 {
    if above(low, value) {
        low
    } else if above(value, high) {
        high
    } else {
        value
    }
}

fn not_a_number(bits: u64) -> (r: bool)
    ensures
        r == is_nan(bits),
{
    if bits < SIGN {
        bits > INFINITY
    } else {
        bits - SIGN > INFINITY
    }
}

/// Whether `a` is greater than `b`.
pub fn is_above(a: u64, b: u64) -> (r: bool)
    ensures
        r == above(a, b),
{
    if not_a_number(a) || not_a_number(b) {
        false
    } else if a < SIGN {
        b >= SIGN && (a > 0 || b > SIGN) || b < SIGN && a > b
    } else {
        b > SIGN && a < b
    }
}

/// The greater of the two.
pub fn max(a: u64, b: u64) -> (r: u64)
    ensures
        r == larger(a, b),
{
    if not_a_number(a) || is_above(b, a) {
        b
    } else {
        a
    }
}

/// The lesser of the two.
pub fn min(a: u64, b: u64) -> (r: u64)
    ensures
        r == smaller(a, b),
{
    if not_a_number(a) || is_above(a, b) {
        b
    } else {
        a
    }
}

/// `value` moved into the range from `low` to `high`.
pub fn clamp(value: u64, low: u64, high: u64) -> (r: u64)
    ensures
        r == limited(value, low, high),
{
    if is_above(low, value) {
        low
    } else if is_above(value, high) {
        high
    } else {
        value
    }
}

/// A number that was moved into a range lies in it.
pub proof fn lemma_limited_is_in_range(value: u64, low: u64, high: u64)
    requires
        !is_nan(value),
        !is_nan(low),
        !is_nan(high),
        !above(low, high),
    ensures
        rank(low) <= rank(limited(value, low, high)) <= rank(high),
        !is_nan(limited(value, low, high)),
{
}

/// The greater of two is below neither, and the lesser above neither.
pub proof fn lemma_larger_and_smaller_bound(a: u64, b: u64)
    ensures
        !above(a, larger(a, b)),
        !above(b, larger(a, b)),
        !above(smaller(a, b), a),
        !above(smaller(a, b), b),
{
}

/// What is not a number lies beyond the pattern of infinity, on the positive
/// or on the negative side.
pub proof fn lemma_what_is_no_number(bits: u64)
    ensures
        is_nan(bits) <==> 0x7ff0_0000_0000_0000 < bits < 0x8000_0000_0000_0000 || 0xfff0_0000_0000_0000 < bits,
{
}

/// Positive numbers are ordered as their patterns are, negative ones the other
/// way round; a positive one is above a negative one unless both are zero; and
/// what is not a number is neither above nor below anything.
pub proof fn lemma_order_of_patterns(a: u64, b: u64)
    ensures
        a <= 0x7ff0_0000_0000_0000 && b <= 0x7ff0_0000_0000_0000 ==> (above(a, b) <==> a > b),
        0x8000_0000_0000_0000 <= a <= 0xfff0_0000_0000_0000 && 0x8000_0000_0000_0000 <= b <= 0xfff0_0000_0000_0000 ==> (above(a, b) <==> a < b),
        a <= 0x7ff0_0000_0000_0000 && 0x8000_0000_0000_0000 <= b <= 0xfff0_0000_0000_0000 ==> (above(a, b) <==> a > 0 || b > 0x8000_0000_0000_0000) && !above(b, a),
        is_nan(a) ==> !above(a, b) && !above(b, a),
{
}

/// Ranks order numbers as their values do, and equal numbers have one rank.
pub proof fn lemma_rank_orders_numbers(a: u64, b: u64)
    requires
        !is_nan(a),
        !is_nan(b),
    ensures
        rank(a) > rank(b) <==> above(a, b),
        rank(a) == rank(b) <==> a == b || (a == 0 && b == 0x8000_0000_0000_0000) || (a == 0x8000_0000_0000_0000 && b == 0),
        rank(0) == 0,
{
}

/// The greater of two numbers is one of them with neither above it; beside
/// what is not a number, it is the number.
pub proof fn lemma_larger_is_the_greater(a: u64, b: u64)
    ensures
        larger(a, b) == a || larger(a, b) == b,
        !above(a, larger(a, b)),
        !above(b, larger(a, b)),
        is_nan(a) ==> larger(a, b) == b,
        is_nan(b) && !is_nan(a) ==> larger(a, b) == a,
        above(a, b) ==> larger(a, b) == a,
        above(b, a) ==> larger(a, b) == b,
{
}

/// The lesser of two numbers is one of them with neither below it; beside
/// what is not a number, it is the number.
pub proof fn lemma_smaller_is_the_lesser(a: u64, b: u64)
    ensures
        smaller(a, b) == a || smaller(a, b) == b,
        !above(smaller(a, b), a),
        !above(smaller(a, b), b),
        is_nan(a) ==> smaller(a, b) == b,
        is_nan(b) && !is_nan(a) ==> smaller(a, b) == a,
        above(a, b) ==> smaller(a, b) == b,
        above(b, a) ==> smaller(a, b) == a,
{
}

/// Only what lies outside the range is moved, and then to the nearer end.
pub proof fn lemma_limited_moves_only_what_is_outside(value: u64, low: u64, high: u64)
    requires
        !above(low, high),
    ensures
        above(low, value) ==> limited(value, low, high) == low,
        above(value, high) ==> limited(value, low, high) == high,
        !above(low, value) && !above(value, high) ==> limited(value, low, high) == value,
{
}

} // verus!
