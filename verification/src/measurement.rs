//! Bit patterns of binary64 measurements and the order between them.

use std::cmp::Ordering;
use vstd::prelude::*;

verus! {

/// The sign bit of a binary64 bit pattern.
pub const SIGN_BIT: u64 = 0x8000_0000_0000_0000;

/// The exponent field of a binary64 bit pattern.
pub const EXPONENT_MASK: u64 = 0x7ff0_0000_0000_0000;

/// A bit pattern is finite when its exponent field is not all ones, that is
/// when it encodes neither an infinity nor a NaN.
pub open spec fn is_finite(bits: u64) -> bool {
    bits & EXPONENT_MASK != EXPONENT_MASK
}

/// Every pattern of the sequence is finite.
pub open spec fn all_finite(values: Seq<u64>) -> bool {
    forall|i: int| 0 <= i < values.len() ==> is_finite(#[trigger] values[i])
}

/// The integer by which bit patterns are ordered. A pattern without the sign
/// bit stands at its magnitude; one with the sign bit stands below zero, the
/// further the larger its magnitude. On finite patterns this is the numeric
/// order of the encoded values, with negative zero just below positive zero.
pub open spec fn order_key(bits: u64) -> int {
    if bits < SIGN_BIT {
        bits as int
    } else {
        -((bits - SIGN_BIT) as int) - 1
    }
}

/// `a` stands at or before `b` in the order of measurements.
pub open spec fn at_most(a: u64, b: u64) -> bool {
    order_key(a) <= order_key(b)
}

/// The sequence is non-decreasing in the order of measurements.
pub open spec fn ascending(values: Seq<u64>) -> bool {
    forall|i: int, j: int|
        0 <= i < j < values.len() ==> at_most(#[trigger] values[i], #[trigger] values[j])
}

/// The order key tells bit patterns apart: two patterns with the same key are
/// the same pattern.
pub proof fn lemma_order_key_injective(a: u64, b: u64)
    requires
        order_key(a) == order_key(b),
    ensures
        a == b,
{
}

/// The order of measurements is a total order on bit patterns.
pub proof fn lemma_at_most_total_order()
    ensures
        vstd::relations::total_ordering(|a: u64, b: u64| at_most(a, b)),
{
    let leq = |a: u64, b: u64| at_most(a, b);
    assert forall|a: u64, b: u64| #[trigger] leq(a, b) && #[trigger] leq(b, a) implies a == b by {
        lemma_order_key_injective(a, b);
    }
}

/// Whether the bit pattern encodes a finite number.
pub fn is_finite_bits(bits: u64) -> (finite: bool)
    ensures
        finite == is_finite(bits),
{
    bits & EXPONENT_MASK != EXPONENT_MASK
}

/// Whether every bit pattern of `values` encodes a finite number.
pub fn all_finite_bits(values: &Vec<u64>) -> (finite: bool)
    ensures
        finite == all_finite(values@),
{
    let mut i: usize = 0;
    while i < values.len()
        invariant
            i <= values.len(),
            forall|k: int| 0 <= k < i ==> is_finite(#[trigger] values@[k]),
        decreases values.len() - i,
    {
        if !is_finite_bits(values[i]) {
            return false;
        }
        i = i + 1;
    }
    true
}

/// Whether `a` stands at or before `b` in the order of measurements.
pub fn precedes(a: u64, b: u64) -> (r: bool)
    ensures
        r == at_most(a, b),
{
    if a < SIGN_BIT {
        b < SIGN_BIT && a <= b
    } else {
        b < SIGN_BIT || b <= a
    }
}

/// Compares two bit patterns in the order of measurements. Only a pattern
/// and itself compare as equal.
pub fn compare(a: u64, b: u64) -> (order: Ordering)
    ensures
        match order {
            Ordering::Less => order_key(a) < order_key(b),
            Ordering::Equal => a == b,
            Ordering::Greater => order_key(a) > order_key(b),
        },
{
    if a == b {
        Ordering::Equal
    } else if precedes(a, b) {
        Ordering::Less
    } else {
        Ordering::Greater
    }
}

} // verus!
