//! Double precision numbers held as their bit patterns, with their order.

use vstd::prelude::*;

verus! {

/// The largest magnitude that is a number: the bit pattern of infinity.
pub const INFINITE: u64 = 0x7ff0_0000_0000_0000;

/// The sign bit.
pub const SIGN: u64 = 0x8000_0000_0000_0000;

/// A double precision number, as the 64 bits that stand for it.
#[derive(Clone, Copy, Debug, PartialEq, Eq, Structural)]
pub struct Double {
    pub bits: u64,
}

impl Double {
    /// The bits without the sign.
    pub open spec fn magnitude(self) -> int {
        self.bits as int % 0x8000_0000_0000_0000
    }

    /// Whether the bits stand for no number.
    pub open spec fn nan(self) -> bool {
        self.magnitude() > INFINITE
    }

    /// Whether the bits stand for a number other than infinity.
    pub open spec fn finite(self) -> bool {
        self.magnitude() < INFINITE
    }

    /// The place of a number in the order. Both zeros have the place `0`.
    pub open spec fn rank(self) -> int {
        if self.bits >= SIGN {
            -self.magnitude()
        } else {
            self.magnitude()
        }
    }

    /// Whether this number is below the other. Nothing is below, or above, what is no number.
    pub open spec fn below(self, other: Double) -> bool {
        !self.nan() && !other.nan() && self.rank() < other.rank()
    }

    /// The lower of two numbers; the other one where one of them is no number.
    pub open spec fn lower(self, other: Double) -> Double {
        if self.nan() {
            other
        } else if other.below(self) {
            other
        } else {
            self
        }
    }

    /// The higher of two numbers; the other one where one of them is no number.
    pub open spec fn higher(self, other: Double) -> Double {
        if self.nan() {
            other
        } else if self.below(other) {
            other
        } else {
            self
        }
    }

    /// Whether this number is above zero.
    pub open spec fn positive(self) -> bool {
        !self.nan() && self.rank() > 0
    }

    /// Whether this number is above zero.
    pub fn is_positive(&self) -> (r: bool)
        ensures
            r == self.positive(),
    {
        !self.is_nan() && self.bits < SIGN && self.bits > 0
    }

    /// Whether the bits stand for no number.
    pub fn is_nan(&self) -> (r: bool)
        ensures
            r == self.nan(),
    {
        self.bits % SIGN > INFINITE
    }

    /// Whether the bits stand for a number other than infinity.
    pub fn is_finite(&self) -> (r: bool)
        ensures
            r == self.finite(),
    {
        self.bits % SIGN < INFINITE
    }

    /// Whether this number is below the other.
    pub fn is_below(&self, other: &Double) -> (r: bool)
        ensures
            r == self.below(*other),
    {
        if self.is_nan() || other.is_nan() {
            return false;
        }
        let a: u64 = self.bits % SIGN;
        let b: u64 = other.bits % SIGN;
        if self.bits >= SIGN {
            if other.bits >= SIGN {
                b < a
            } else {
                a > 0 || b > 0
            }
        } else if other.bits >= SIGN {
            false
        } else {
            a < b
        }
    }

    /// The lower of two numbers.
    pub fn min(self, other: Double) -> (r: Double)
        ensures
            r == self.lower(other),
    {
        if self.is_nan() || other.is_below(&self) {
            other
        } else {
            self
        }
    }

    /// The higher of two numbers.
    pub fn max(self, other: Double) -> (r: Double)
        ensures
            r == self.higher(other),
    {
        if self.is_nan() || self.is_below(&other) {
            other
        } else {
            self
        }
    }
}

} // verus!
