//! IEEE 754 binary64 numbers, carried by their bit patterns.
//!
//! The verifier reasons about integers, so a sample is held as the 64 bits of
//! its encoding and ordered the way the standard orders the number it encodes.

use vstd::arithmetic::power2::pow2;
use vstd::prelude::*;

verus! {

/// The bit that holds the sign.
pub const SIGN_BIT: u64 = 0x8000_0000_0000_0000u64;

/// The encoding of positive infinity: every larger magnitude is a NaN.
pub const INFINITY_BITS: u64 = 0x7FF0_0000_0000_0000u64;

/// A binary64 number, held by its encoding.
///
/// `==` on two values compares encodings: it tells `0.0` from `-0.0` and
/// finds a NaN equal to itself. The order of the numbers is `le`.
#[derive(Clone, Copy, Debug, PartialEq, Eq, Structural)]
pub struct Double {
    pub bits: u64,
}

impl Double {
    /// The encoding without its sign bit.
    pub open spec fn magnitude(self) -> int {
        self.bits as int % 0x8000_0000_0000_0000
    }

    /// Whether the sign bit is set.
    pub open spec fn negative(self) -> bool {
        self.bits >= 0x8000_0000_0000_0000
    }

    /// Whether the encoding is a NaN.
    pub open spec fn nan(self) -> bool {
        self.magnitude() > 0x7FF0_0000_0000_0000
    }

    /// An integer that orders the numbers that are no NaN as the standard
    /// does: both zeros have rank 0, and the infinities are the extremes.
    pub open spec fn rank(self) -> int {
        if self.negative() {
            -self.magnitude()
        } else {
            self.magnitude()
        }
    }

    /// Whether `self` encodes the whole number `n`, for `n` from 1 to 2^53 - 1.
    /// With `e` the place of the highest bit of `n`, the exponent field holds
    /// 1023 + e, and the fraction holds the lower bits of `n`, moved up to
    /// the top of its 52 bits: the number is (1 + fraction / 2^52) * 2^e.
    pub open spec fn encodes_whole(self, n: int) -> bool {
        exists|e: nat|
            {
                &&& e <= 52
                &&& pow2(e) <= n < 2 * pow2(e)
                &&& self.bits == (1023 + e) * pow2(52) + (n - #[trigger] pow2(e)) * pow2(
                    (52 - e) as nat,
                )
            }
    }

    /// `self <= other` as the standard defines it: false where either is a NaN.
    pub open spec fn le_spec(self, other: Double) -> bool {
        !self.nan() && !other.nan() && self.rank() <= other.rank()
    }

    /// `self < other` as the standard defines it: false where either is a NaN.
    pub open spec fn lt_spec(self, other: Double) -> bool {
        !self.nan() && !other.nan() && self.rank() < other.rank()
    }

    /// The number with the given encoding.
    pub fn from_bits(bits: u64) -> (d: Double)
        ensures
            d.bits == bits,
    {
        Double { bits }
    }

    /// The encoding of the number.
    pub fn to_bits(self) -> (bits: u64)
        ensures
            bits == self.bits,
    {
        self.bits
    }

    /// Whether the number is a NaN.
    pub fn is_nan(self) -> (r: bool)
        ensures
            r == self.nan(),
    {
        self.bits % SIGN_BIT > INFINITY_BITS
    }

    /// Whether `self <= other`.
    pub fn le(self, other: Double) -> (r: bool)
        ensures
            r == self.le_spec(other),
    {
        if self.is_nan() || other.is_nan() {
            return false;
        }
        let a: u64 = self.bits % SIGN_BIT;
        let b: u64 = other.bits % SIGN_BIT;
        if self.bits >= SIGN_BIT {
            if other.bits >= SIGN_BIT {
                b <= a
            } else {
                true
            }
        } else {
            if other.bits >= SIGN_BIT {
                a == 0 && b == 0
            } else {
                a <= b
            }
        }
    }
}

} // verus!
