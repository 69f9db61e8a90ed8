//! The scale on which quantities are written.
//!
//! A quantity is an `i64`. Greater quantities have greater numbers, zero is
//! 0, and the opposite of `v` is `-v`. Only `i64::MIN` has no opposite on
//! the scale; where one is asked for, it is `i64::MAX`.

use vstd::prelude::*;

verus! {

/// The opposite of `v` on the scale.
pub open spec fn negated(v: i64) -> i64 {
    if v == i64::MIN {
        i64::MAX
    } else {
        (-v) as i64
    }
}

/// The opposite of `v` on the scale.
pub fn negate(v: i64) -> (r: i64)
    ensures
        r == negated(v),
{
    if v == i64::MIN {
        i64::MAX
    } else {
        -v
    }
}

/// The lesser of two quantities.
pub open spec fn lesser(a: i64, b: i64) -> i64 {
    if a <= b {
        a
    } else {
        b
    }
}

/// The greater of two quantities.
pub open spec fn greater(a: i64, b: i64) -> i64 {
    if a >= b {
        a
    } else {
        b
    }
}

/// The size of `v` is more than `tolerance`: `v` lies above it or below
/// its opposite.
pub open spec fn exceeds(v: i64, tolerance: i64) -> bool {
    v > tolerance || v < negated(tolerance)
}

/// Whether the size of `v` is more than `tolerance`.
pub fn beyond(v: i64, tolerance: i64) -> (r: bool)
    ensures
        r == exceeds(v, tolerance),
{
    v > tolerance || v < negate(tolerance)
}

/// Taking the opposite turns the order round.
pub proof fn lemma_negated_reverses(a: i64, b: i64)
    requires
        a <= b,
    ensures
        negated(b) <= negated(a),
{
}

} // verus!
