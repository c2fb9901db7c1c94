//! Single precision numbers of the game, carried by their bit patterns.
use vstd::prelude::*;

verus! {

/// An IEEE 754 single precision number as the game stores it.
///
/// The library moves such numbers and classifies them; it computes nothing with
/// them.
#[derive(Clone, Copy, Debug, PartialEq, Eq, Structural)]
pub struct Single {
    pub bits: u32,
}

impl Single {
    /// The biased exponent, bits 23 to 30.
    pub open spec fn exponent(self) -> int {
        (self.bits as int / 0x80_0000) % 256
    }

    /// Neither an infinity nor a NaN.
    pub open spec fn finite(self) -> bool {
        self.exponent() != 255
    }

    /// Positive or negative zero.
    pub open spec fn zero(self) -> bool {
        self.bits as int % 0x8000_0000 == 0
    }

    /// Whether the number is neither infinite nor a NaN.
    pub fn is_finite(&self) -> (r: bool)
        ensures
            r == self.finite(),
    {
        (self.bits / 0x80_0000) % 256 != 255
    }

    /// Whether the number equals zero.
    pub fn is_zero(&self) -> (r: bool)
        ensures
            r == self.zero(),
    {
        self.bits % 0x8000_0000 == 0
    }
}

/// Exactly two patterns stand for zero, and they differ in the sign.
pub proof fn law_zero(number: Single)
    ensures
        number.zero() <==> number.bits == 0 || number.bits == 0x8000_0000,
        number.zero() ==> number.finite(),
{
}

/// The numbers that are not finite are those from the infinities on, of either
/// sign.
pub proof fn law_not_finite(number: Single)
    ensures
        !number.finite() <==> {
            ||| 0x7F80_0000 <= number.bits <= 0x7FFF_FFFF
            ||| 0xFF80_0000 <= number.bits
        },
{
}

} // verus!
