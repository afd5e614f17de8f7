//! Double-precision values as the verified code sees them.
//!
//! The algorithms of this crate decide by comparing double-precision numbers,
//! but never compute with them: sums and products are carried out by the
//! caller's arithmetic (see [`crate::arithmetic`]). A value is therefore held
//! by its IEEE 754 binary64 bit pattern, and this module gives that pattern
//! its order.
use vstd::prelude::*;

verus! {

/// The bit that carries the sign.
pub const SIGN_BIT: u64 = 0x8000_0000_0000_0000;

/// The pattern of positive infinity; every larger magnitude is a NaN.
pub const INFINITY_BITS: u64 = 0x7FF0_0000_0000_0000;

/// The machine epsilon, the gap between `1.0` and the next larger value: the
/// bit pattern of `2^-52`.
pub const EPSILON: u64 = 0x3CB0_0000_0000_0000;

/// The value of [`EPSILON`].
pub open spec fn epsilon() -> Double {
    Double { bits: EPSILON }
}

/// A double-precision value, held by its IEEE 754 binary64 bit pattern.
///
/// Every pattern is a value, so the type has no invariant. Equality (`==`) is
/// equality of patterns: it tells `+0.0` from `-0.0` and one NaN from another.
/// The numeric order is that of the views.
#[derive(Clone, Copy, Debug, PartialEq, Eq, Structural)]
pub struct Double {
    pub bits: u64,
}

impl View for Double {
    type V = Option<int>;

    /// The place of the value in the numeric order; `None` for a NaN.
    ///
    /// Binary64 is a sign-and-magnitude format: the magnitude counts upwards
    /// from zero for positive values and downwards for negative ones, the
    /// infinities being the outermost. Both zeros have the place 0.
    open spec fn view(&self) -> Option<int> {
        if self.magnitude() > INFINITY_BITS {
            None
        } else if self.sign() {
            Some(-(self.magnitude() as int))
        } else {
            Some(self.magnitude() as int)
        }
    }
}

impl Double {
    /// The pattern with the sign cleared.
    pub open spec fn magnitude(self) -> u64 {
        if self.bits >= SIGN_BIT {
            (self.bits - SIGN_BIT) as u64
        } else {
            self.bits
        }
    }

    /// Whether the sign bit is set (as it is in `-0.0` too).
    pub open spec fn sign(self) -> bool {
        self.bits >= SIGN_BIT
    }

    /// Whether the value is a NaN.
    pub open spec fn spec_is_nan(self) -> bool {
        self@ is None
    }

    /// `self < other` as IEEE 754 orders the two: false when either is a NaN.
    pub open spec fn spec_lt(self, other: Double) -> bool {
        self@ matches Some(x) && other@ matches Some(y) && x < y
    }

    /// `self <= other` as IEEE 754 orders the two: false when either is a NaN.
    pub open spec fn spec_le(self, other: Double) -> bool {
        self@ matches Some(x) && other@ matches Some(y) && x <= y
    }

    /// `self > other`, that is `other < self`.
    pub open spec fn spec_gt(self, other: Double) -> bool {
        other.spec_lt(self)
    }

    /// Whether the value lies above zero.
    pub open spec fn positive(self) -> bool {
        self@ matches Some(x) && x > 0
    }

    /// Whether the value lies below zero.
    pub open spec fn negative(self) -> bool {
        self@ matches Some(x) && x < 0
    }

    /// The value with its sign cleared.
    pub open spec fn spec_abs(self) -> Double {
        Double { bits: self.magnitude() }
    }

    /// The value with its sign flipped.
    pub open spec fn spec_neg(self) -> Double {
        if self.bits >= SIGN_BIT {
            Double { bits: (self.bits - SIGN_BIT) as u64 }
        } else {
            Double { bits: (self.bits + SIGN_BIT) as u64 }
        }
    }

    /// The value with the given bit pattern.
    pub fn from_bits(bits: u64) -> (r: Double)
        ensures
            r.bits == bits,
    {
        Double { bits }
    }

    /// The bit pattern of the value.
    pub fn to_bits(self) -> (r: u64)
        ensures
            r == self.bits,
    {
        self.bits
    }

    /// Whether the value is a NaN.
    #[verifier::when_used_as_spec(spec_is_nan)]
    pub fn is_nan(self) -> (r: bool)
        ensures
            r == self.spec_is_nan(),
    {
        let magnitude: u64 = if self.bits >= SIGN_BIT {
            self.bits - SIGN_BIT
        } else {
            self.bits
        };
        magnitude > INFINITY_BITS
    }

    /// `self < other` in the numeric order.
    #[verifier::when_used_as_spec(spec_lt)]
    pub fn lt(self, other: Double) -> (r: bool)
        ensures
            r == self.spec_lt(other),
    {
        if self.is_nan() || other.is_nan() {
            false
        } else if self.bits >= SIGN_BIT {
            if other.bits >= SIGN_BIT {
                self.bits > other.bits
            } else {
                self.bits > SIGN_BIT || other.bits > 0
            }
        } else {
            other.bits < SIGN_BIT && self.bits < other.bits
        }
    }

    /// `self <= other` in the numeric order.
    #[verifier::when_used_as_spec(spec_le)]
    pub fn le(self, other: Double) -> (r: bool)
        ensures
            r == self.spec_le(other),
    {
        if self.is_nan() || other.is_nan() {
            false
        } else if self.bits >= SIGN_BIT {
            other.bits < SIGN_BIT || self.bits >= other.bits
        } else {
            (other.bits < SIGN_BIT && self.bits <= other.bits) || (self.bits == 0 && other.bits == SIGN_BIT)
        }
    }

    /// `self > other` in the numeric order.
    #[verifier::when_used_as_spec(spec_gt)]
    pub fn gt(self, other: Double) -> (r: bool)
        ensures
            r == self.spec_gt(other),
    {
        other.lt(self)
    }

    /// The absolute value: the sign is cleared, also on a NaN.
    #[verifier::when_used_as_spec(spec_abs)]
    pub fn abs(self) -> (r: Double)
        ensures
            r == self.spec_abs(),
            r@ == (match self@ {
                Some(x) => Some(if x < 0 { -x } else { x }),
                None => None,
            }),
    {
        if self.bits >= SIGN_BIT {
            Double { bits: self.bits - SIGN_BIT }
        } else {
            self
        }
    }

    /// The negation: the sign is flipped, also on a NaN.
    #[verifier::when_used_as_spec(spec_neg)]
    pub fn neg(self) -> (r: Double)
        ensures
            r == self.spec_neg(),
            r@ == (match self@ {
                Some(x) => Some(-x),
                None => None,
            }),
    {
        if self.bits >= SIGN_BIT {
            Double { bits: self.bits - SIGN_BIT }
        } else {
            Double { bits: self.bits + SIGN_BIT }
        }
    }
}

} // verus!
