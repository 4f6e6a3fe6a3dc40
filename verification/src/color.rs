//! Colors: three channels of linear light.

use vstd::prelude::*;
use vstd::std_specs::ops::NegSpecImpl;
use crate::scalar::Scalar;

verus! {

/// The bit pattern of one half.
pub const HALF_BITS: u64 = 0x3fe0_0000_0000_0000;

/// The bit pattern of the binary64 value nearest to seven tenths.
pub const SEVEN_TENTHS_BITS: u64 = 0x3fe6_6666_6666_6666;

/// Red, green and blue. A color is also the factor by which a surface dims
/// the light that it passes on.
#[derive(Clone, Copy, Debug)]
pub struct Color(pub Scalar, pub Scalar, pub Scalar);

impl Color {
    /// Every channel with its sign flipped.
    pub open spec fn negated(self) -> Color {
        Color(self.0.spec_neg(), self.1.spec_neg(), self.2.spec_neg())
    }

    /// Channel by channel the same numbers, as IEEE 754 compares them.
    pub open spec fn same_numbers(self, other: Color) -> bool {
        self.0.same_number(other.0) && self.1.same_number(other.1) && self.2.same_number(other.2)
    }

    /// No light at all.
    pub open spec fn spec_black() -> Color {
        Color(Scalar::spec_zero(), Scalar::spec_zero(), Scalar::spec_zero())
    }

    /// Full light in every channel: the factor that dims nothing.
    pub open spec fn spec_white() -> Color {
        Color(Scalar::spec_one(), Scalar::spec_one(), Scalar::spec_one())
    }

    /// The blue of the sky at the zenith: (0.5, 0.7, 1.0).
    pub open spec fn spec_sky() -> Color {
        Color(Scalar { bits: HALF_BITS }, Scalar { bits: SEVEN_TENTHS_BITS }, Scalar::spec_one())
    }

    pub fn new(r: Scalar, g: Scalar, b: Scalar) -> (c: Color)
        ensures
            c == Color(r, g, b),
    {
        Color(r, g, b)
    }

    pub fn r(self) -> (r: Scalar)
        ensures
            r == self.0,
    {
        self.0
    }

    pub fn g(self) -> (r: Scalar)
        ensures
            r == self.1,
    {
        self.1
    }

    pub fn b(self) -> (r: Scalar)
        ensures
            r == self.2,
    {
        self.2
    }

    #[verifier::when_used_as_spec(spec_black)]
    pub fn black() -> (c: Color)
        ensures
            c == Color::spec_black(),
    {
        Color(Scalar::zero(), Scalar::zero(), Scalar::zero())
    }

    #[verifier::when_used_as_spec(spec_white)]
    pub fn white() -> (c: Color)
        ensures
            c == Color::spec_white(),
    {
        Color(Scalar::one(), Scalar::one(), Scalar::one())
    }

    #[verifier::when_used_as_spec(spec_sky)]
    pub fn sky() -> (c: Color)
        ensures
            c == Color::spec_sky(),
    {
        Color(Scalar::from_bits(HALF_BITS), Scalar::from_bits(SEVEN_TENTHS_BITS), Scalar::one())
    }
}

impl Default for Color {
    fn default() -> (c: Color)
        ensures
            c == Color::spec_black(),
    {
        Color::black()
    }
}

impl PartialEq for Color {
    fn eq(&self, other: &Color) -> (r: bool) {
        self.0 == other.0 && self.1 == other.1 && self.2 == other.2
    }
}

impl vstd::std_specs::cmp::PartialEqSpecImpl for Color {
    open spec fn obeys_eq_spec() -> bool {
        true
    }

    open spec fn eq_spec(&self, other: &Color) -> bool {
        self.same_numbers(*other)
    }
}

impl core::ops::Neg for Color {
    type Output = Color;

    fn neg(self) -> (c: Color) {
        Color(self.0.neg(), self.1.neg(), self.2.neg())
    }
}

impl NegSpecImpl for Color {
    open spec fn obeys_neg_spec() -> bool {
        true
    }

    open spec fn neg_req(self) -> bool {
        true
    }

    open spec fn neg_spec(self) -> Color {
        self.negated()
    }
}

} // verus!
