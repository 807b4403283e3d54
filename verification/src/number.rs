//! A 64-bit IEEE 754 number, held as its bit pattern.
//!
//! Bit 63 is the sign; the remaining 63 bits are the magnitude, which grows
//! with the absolute value of the number. Magnitudes from `INFINITY_BITS`
//! on are the infinities and the NaNs.

use vstd::prelude::*;

verus! {

/// The pattern whose only set bit is the sign.
pub const SIGN_BIT: u64 = 0x8000_0000_0000_0000;

/// The magnitude of an infinity: the least magnitude that is not finite.
pub const INFINITY_BITS: u64 = 0x7ff0_0000_0000_0000;

/// The pattern without its sign bit.
pub open spec fn magnitude(bits: u64) -> int {
    if bits >= SIGN_BIT {
        bits - SIGN_BIT
    } else {
        bits as int
    }
}

/// Whether the sign bit is set.
pub open spec fn is_negative(bits: u64) -> bool {
    bits >= SIGN_BIT
}

/// Whether the pattern is a zero, a subnormal or a normal number: neither an
/// infinity nor a NaN.
pub open spec fn is_finite(bits: u64) -> bool {
    magnitude(bits) < INFINITY_BITS
}

/// The place of a pattern in the IEEE 754 total order: negative numbers
/// below positive ones, `-0.0` directly below `+0.0`, and within one sign by
/// magnitude. Two patterns have the same rank only if they are the same.
pub open spec fn rank(bits: u64) -> int {
    if is_negative(bits) {
        -magnitude(bits) - 1
    } else {
        magnitude(bits)
    }
}

/// Whether two finite patterns stand for the same real number: the same
/// pattern, or two zeros of either sign.
pub open spec fn same_number(a: u64, b: u64) -> bool {
    a == b || (magnitude(a) == 0 && magnitude(b) == 0)
}

/// Whether every pattern of a sequence is finite.
pub open spec fn all_finite(values: Seq<u64>) -> bool {
    forall|i: int| 0 <= i < values.len() ==> is_finite(#[trigger] values[i])
}

/// Tells whether a pattern is a finite number.
pub fn finite(bits: u64) -> (r: bool)
    ensures
        r == is_finite(bits),
{
    if bits >= SIGN_BIT {
        bits - SIGN_BIT < INFINITY_BITS
    } else {
        bits < INFINITY_BITS
    }
}

/// Tells whether `a` comes strictly before `b` in the total order.
pub fn precedes(a: u64, b: u64) -> (r: bool)
    ensures
        r == (rank(a) < rank(b)),
{
    if a >= SIGN_BIT {
        if b >= SIGN_BIT {
            a > b
        } else {
            true
        }
    } else {
        if b >= SIGN_BIT {
            false
        } else {
            a < b
        }
    }
}

/// Tells whether two patterns stand for the same real number.
pub fn equal_numbers(a: u64, b: u64) -> (r: bool)
    ensures
        r == same_number(a, b),
{
    a == b || ((a == 0 || a == SIGN_BIT) && (b == 0 || b == SIGN_BIT))
}

/// The rank tells patterns apart.
pub proof fn rank_is_injective(a: u64, b: u64)
    ensures
        rank(a) == rank(b) <==> a == b,
{
}

} // verus!
