//! A model of IEEE-754 double-precision values by their 64-bit
//! representations.
//!
//! The verified code never holds a floating-point value; it holds the
//! `u64` bit pattern instead.  NaN detection and the ordering used by the
//! min/max scans are pure functions of the bits and are defined here: a
//! double is NaN when its magnitude bits exceed those of infinity, and two
//! non-NaN doubles order by sign and magnitude (with the two zeros equal).

use vstd::prelude::*;

verus! {

/// The magnitude of a double: its bits with the sign bit cleared.
pub open spec fn abs_bits(b: u64) -> u64 {
    if b >= 0x8000_0000_0000_0000 {
        (b - 0x8000_0000_0000_0000) as u64
    } else {
        b
    }
}

/// The sign bit is set (applies to zero, finite, infinite and NaN values).
pub open spec fn sign_bit(b: u64) -> bool {
    b >= 0x8000_0000_0000_0000
}

/// A NaN: the exponent field is all ones and the mantissa is non-zero,
/// i.e. the magnitude exceeds that of infinity.
pub open spec fn is_nan_bits(b: u64) -> bool {
    abs_bits(b) > 0x7ff0_0000_0000_0000
}

/// Each non-NaN double's place on the real line, as a mathematical
/// integer: zero for the two zeros, and a signed magnitude otherwise.
/// Because the exponent field sits above the mantissa, the magnitude bits
/// of two doubles of one sign compare exactly as the doubles do.
pub open spec fn rank(b: u64) -> int {
    if abs_bits(b) == 0 {
        0
    } else if sign_bit(b) {
        -(abs_bits(b) as int)
    } else {
        abs_bits(b) as int
    }
}

/// IEEE `>` on bit patterns: false whenever either side is NaN.
pub open spec fn bits_gt(a: u64, b: u64) -> bool {
    !is_nan_bits(a) && !is_nan_bits(b) && rank(a) > rank(b)
}

/// IEEE `<` on bit patterns: false whenever either side is NaN.
pub open spec fn bits_lt(a: u64, b: u64) -> bool {
    !is_nan_bits(a) && !is_nan_bits(b) && rank(a) < rank(b)
}

/// IEEE `<=` on bit patterns: false whenever either side is NaN.
pub open spec fn bits_le(a: u64, b: u64) -> bool {
    !is_nan_bits(a) && !is_nan_bits(b) && rank(a) <= rank(b)
}

/// Decides whether a bit pattern denotes a NaN.  The shell around the
/// library uses this for the sum loop's early-termination test.
pub fn bits_is_nan(b: u64) -> (r: bool)
    ensures
        r == is_nan_bits(b),
{
    let m = if b >= 0x8000_0000_0000_0000 {
        b - 0x8000_0000_0000_0000
    } else {
        b
    };
    m > 0x7ff0_0000_0000_0000
}

/// Decides IEEE `>` on two bit patterns.
pub fn f64_bits_gt(a: u64, b: u64) -> (r: bool)
    ensures
        r == bits_gt(a, b),
{
    if bits_is_nan(a) || bits_is_nan(b) {
        return false;
    }
    let ma = if a >= 0x8000_0000_0000_0000 {
        a - 0x8000_0000_0000_0000
    } else {
        a
    };
    let mb = if b >= 0x8000_0000_0000_0000 {
        b - 0x8000_0000_0000_0000
    } else {
        b
    };
    let a_neg = ma != 0 && a >= 0x8000_0000_0000_0000;
    let b_neg = mb != 0 && b >= 0x8000_0000_0000_0000;
    if a_neg && b_neg {
        ma < mb
    } else if !a_neg && !b_neg {
        ma > mb
    } else if a_neg {
        false
    } else {
        true
    }
}

/// Decides IEEE `<` on two bit patterns.
pub fn f64_bits_lt(a: u64, b: u64) -> (r: bool)
    ensures
        r == bits_lt(a, b),
{
    f64_bits_gt(b, a)
}

} // verus!
