//! Metric values.
//!
//! A value is an IEEE-754 binary64 number carried as its 64-bit pattern. The
//! store never interprets a value beyond what this module defines on the
//! pattern: its sign, its magnitude, whether it is a zero and whether it is a
//! NaN. Arithmetic on values is supplied by the caller.

use vstd::prelude::*;

verus! {

/// The sign bit of a binary64 pattern.
pub const SIGN_BIT: u64 = 0x8000_0000_0000_0000;

/// The pattern of positive infinity: every larger magnitude is a NaN.
pub const INFINITY_BITS: u64 = 0x7ff0_0000_0000_0000;

/// A metric value: the bit pattern of a binary64 number.
#[derive(Clone, Copy, Debug, PartialEq, Eq, Structural)]
pub struct Value {
    pub bits: u64,
}

impl Value {
    /// The pattern with the sign bit cleared. On patterns that are not NaN the
    /// magnitudes are ordered as the absolute values of the numbers are.
    pub open spec fn magnitude(self) -> int {
        if self.bits >= SIGN_BIT {
            self.bits - SIGN_BIT
        } else {
            self.bits as int
        }
    }

    /// Positive or negative zero: the values that compare equal to `0.0`.
    pub open spec fn is_zero(self) -> bool {
        self.magnitude() == 0
    }

    /// Not a number.
    pub open spec fn is_nan(self) -> bool {
        self.magnitude() > INFINITY_BITS
    }

    /// The absolute value is a number and is at least that of `threshold`.
    /// A NaN is at least nothing.
    pub open spec fn abs_at_least(self, threshold: Value) -> bool {
        !self.is_nan() && !threshold.is_nan() && self.magnitude() >= threshold.magnitude()
    }

    /// The value with the given bit pattern.
    pub fn from_bits(bits: u64) -> (v: Value)
        ensures
            v.bits == bits,
    {
        Value { bits }
    }

    /// The bit pattern of the value.
    pub fn to_bits(self) -> (bits: u64)
        ensures
            bits == self.bits,
    {
        self.bits
    }

    fn magnitude_bits(self) -> (m: u64)
        ensures
            m == self.magnitude(),
    {
        if self.bits >= SIGN_BIT {
            self.bits - SIGN_BIT
        } else {
            self.bits
        }
    }

    /// Whether the value is a zero, of either sign.
    pub fn zero(self) -> (r: bool)
        ensures
            r == self.is_zero(),
    {
        self.magnitude_bits() == 0
    }

    /// Whether the value is not a number.
    pub fn nan(self) -> (r: bool)
        ensures
            r == self.is_nan(),
    {
        self.magnitude_bits() > INFINITY_BITS
    }

    /// Whether the absolute value is at least that of `threshold`.
    pub fn magnitude_at_least(self, threshold: Value) -> (r: bool)
        ensures
            r == self.abs_at_least(threshold),
    {
        let m: u64 = self.magnitude_bits();
        let t: u64 = threshold.magnitude_bits();
        m <= INFINITY_BITS && t <= INFINITY_BITS && m >= t
    }
}

} // verus!
