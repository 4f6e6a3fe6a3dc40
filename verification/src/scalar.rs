//! Binary64 values as bit patterns, with their order.

use vstd::arithmetic::div_mod::{lemma_div_is_ordered, lemma_fundamental_div_mod};
use vstd::arithmetic::mul::{lemma_mul_inequality, lemma_mul_strict_inequality};
use vstd::arithmetic::power2::{
    lemma_pow2_adds, lemma_pow2_pos, lemma_pow2_strictly_increases, lemma_pow2_unfold, pow2,
};
use vstd::prelude::*;

verus! {

/// The bit that holds the sign of a binary64 value.
pub const SIGN_BIT: u64 = 0x8000_0000_0000_0000;

/// The magnitude bits of an infinity; every larger magnitude is a NaN.
pub const INFINITY_BITS: u64 = 0x7ff0_0000_0000_0000;

/// Two to the power of 52: the number of values that the fraction field can
/// hold.
pub const FRACTION_RANGE: u64 = 0x10_0000_0000_0000;

/// The bit pattern of the number one.
pub const ONE_BITS: u64 = 0x3ff0_0000_0000_0000;

/// A binary64 value, held as its IEEE 754 bit pattern.
///
/// Every `u64` is the pattern of some value, so the type has no invariant.
#[derive(Clone, Copy, Debug)]
pub struct Scalar {
    pub bits: u64,
}

impl Scalar {
    /// The sign bit is set. This holds of negative numbers, of negative zero
    /// and of half of the NaNs.
    pub open spec fn sign_negative(self) -> bool {
        self.bits >= SIGN_BIT
    }

    /// The pattern without its sign bit.
    pub open spec fn magnitude(self) -> int {
        if self.bits >= SIGN_BIT {
            self.bits - SIGN_BIT
        } else {
            self.bits as int
        }
    }

    /// The value is not a number.
    pub open spec fn spec_is_nan(self) -> bool {
        self.magnitude() > INFINITY_BITS
    }

    /// The value is a number and not an infinity.
    pub open spec fn spec_is_finite(self) -> bool {
        self.magnitude() < INFINITY_BITS
    }

    /// The exponent field: the eleven bits below the sign.
    pub open spec fn exponent_field(self) -> int {
        self.magnitude() / (FRACTION_RANGE as int)
    }

    /// The fraction field: the lowest 52 bits.
    pub open spec fn fraction_field(self) -> int {
        self.magnitude() % (FRACTION_RANGE as int)
    }

    /// The absolute value that the pattern encodes, times two to the power of
    /// 1074, which makes it a whole number.
    ///
    /// IEEE 754 gives a pattern with exponent field `e` and fraction field `f`
    /// the absolute value `2^(e - 1023) * (1 + f / 2^52)` where `e` is not
    /// zero, and `2^(-1022) * (f / 2^52)` where it is. Times `2^1074` these
    /// are `(2^52 + f) * 2^(e - 1)` and `f`. An infinity, which has the
    /// largest exponent field and a fraction of zero, comes out above every
    /// finite value.
    pub open spec fn scaled_magnitude(self) -> int {
        scaled(self.magnitude())
    }

    /// The number that the pattern encodes, times two to the power of 1074.
    /// It means nothing for a NaN.
    pub open spec fn scaled_value(self) -> int {
        if self.sign_negative() {
            -self.scaled_magnitude()
        } else {
            self.scaled_magnitude()
        }
    }

    /// The magnitude bits with the sign in front.
    ///
    /// The magnitude bits of binary64 grow with the absolute value they
    /// encode, from zero through the subnormal and normal numbers up to
    /// infinity, so the rank orders all values that are not NaN exactly as
    /// the numbers themselves are ordered: `lemma_rank_orders_as_values`
    /// proves it. The comparisons are computed with the rank. Both zeros
    /// have rank 0.
    pub open spec fn rank(self) -> int {
        if self.sign_negative() {
            -self.magnitude()
        } else {
            self.magnitude()
        }
    }

    /// `self < other` as IEEE 754 defines it: neither side is a NaN, and the
    /// number on the left is below the number on the right.
    pub open spec fn spec_lt(self, other: Scalar) -> bool {
        !self.spec_is_nan() && !other.spec_is_nan() && self.scaled_value() < other.scaled_value()
    }

    /// `self <= other`; false whenever either side is a NaN.
    pub open spec fn spec_le(self, other: Scalar) -> bool {
        !self.spec_is_nan() && !other.spec_is_nan() && self.scaled_value() <= other.scaled_value()
    }

    /// `self > other`; false whenever either side is a NaN.
    pub open spec fn spec_gt(self, other: Scalar) -> bool {
        other.spec_lt(self)
    }

    /// `self >= other`; false whenever either side is a NaN.
    pub open spec fn spec_ge(self, other: Scalar) -> bool {
        other.spec_le(self)
    }

    /// `self == other` as IEEE 754 defines it: the zeros are equal to each
    /// other, and a NaN is equal to nothing.
    pub open spec fn same_number(self, other: Scalar) -> bool {
        !self.spec_is_nan() && !other.spec_is_nan() && self.scaled_value() == other.scaled_value()
    }

    /// The value with its sign flipped.
    pub open spec fn spec_neg(self) -> Scalar {
        if self.bits >= SIGN_BIT {
            Scalar { bits: (self.bits - SIGN_BIT) as u64 }
        } else {
            Scalar { bits: (self.bits + SIGN_BIT) as u64 }
        }
    }

    /// Positive zero.
    pub open spec fn spec_zero() -> Scalar {
        Scalar { bits: 0 }
    }

    /// The number one.
    pub open spec fn spec_one() -> Scalar {
        Scalar { bits: ONE_BITS }
    }

    /// The value with the given bit pattern.
    pub fn from_bits(bits: u64) -> (r: Scalar)
        ensures
            r.bits == bits,
    {
        Scalar { bits }
    }

    /// The bit pattern of the value.
    pub fn to_bits(self) -> (r: u64)
        ensures
            r == self.bits,
    {
        self.bits
    }

    #[verifier::when_used_as_spec(spec_zero)]
    pub fn zero() -> (r: Scalar)
        ensures
            r == Scalar::spec_zero(),
    {
        Scalar { bits: 0 }
    }

    #[verifier::when_used_as_spec(spec_one)]
    pub fn one() -> (r: Scalar)
        ensures
            r == Scalar::spec_one(),
    {
        Scalar { bits: ONE_BITS }
    }

    fn magnitude_bits(self) -> (r: u64)
        ensures
            r == self.magnitude(),
            r < SIGN_BIT,
    {
        if self.bits >= SIGN_BIT {
            self.bits - SIGN_BIT
        } else {
            self.bits
        }
    }

    /// The rank as a machine integer: a magnitude has 63 bits, so the signed
    /// magnitude fits.
    fn rank_i64(self) -> (r: i64)
        ensures
            r == self.rank(),
    {
        let m: u64 = self.magnitude_bits();
        if self.bits >= SIGN_BIT {
            -(m as i64)
        } else {
            m as i64
        }
    }

    #[verifier::when_used_as_spec(spec_is_nan)]
    pub fn is_nan(self) -> (r: bool)
        ensures
            r == self.spec_is_nan(),
    {
        self.magnitude_bits() > INFINITY_BITS
    }

    #[verifier::when_used_as_spec(spec_is_finite)]
    pub fn is_finite(self) -> (r: bool)
        ensures
            r == self.spec_is_finite(),
    {
        self.magnitude_bits() < INFINITY_BITS
    }

    #[verifier::when_used_as_spec(spec_lt)]
    pub fn lt(self, other: Scalar) -> (r: bool)
        ensures
            r == self.spec_lt(other),
    {
        proof {
            lemma_rank_orders_as_values(self, other);
        }
        !self.is_nan() && !other.is_nan() && self.rank_i64() < other.rank_i64()
    }

    #[verifier::when_used_as_spec(spec_le)]
    pub fn le(self, other: Scalar) -> (r: bool)
        ensures
            r == self.spec_le(other),
    {
        proof {
            lemma_rank_orders_as_values(self, other);
        }
        !self.is_nan() && !other.is_nan() && self.rank_i64() <= other.rank_i64()
    }

    #[verifier::when_used_as_spec(spec_gt)]
    pub fn gt(self, other: Scalar) -> (r: bool)
        ensures
            r == self.spec_gt(other),
    {
        other.lt(self)
    }

    #[verifier::when_used_as_spec(spec_ge)]
    pub fn ge(self, other: Scalar) -> (r: bool)
        ensures
            r == self.spec_ge(other),
    {
        other.le(self)
    }

    /// The sign flip is exact on every value: it touches one bit and leaves a
    /// NaN a NaN.
    #[verifier::when_used_as_spec(spec_neg)]
    pub fn neg(self) -> (r: Scalar)
        ensures
            r == self.spec_neg(),
    {
        if self.bits >= SIGN_BIT {
            Scalar { bits: self.bits - SIGN_BIT }
        } else {
            Scalar { bits: self.bits + SIGN_BIT }
        }
    }
}

impl Default for Scalar {
    fn default() -> (r: Scalar)
        ensures
            r == Scalar::spec_zero(),
    {
        Scalar { bits: 0 }
    }
}

impl PartialEq for Scalar {
    fn eq(&self, other: &Scalar) -> (r: bool) {
        proof {
            lemma_rank_orders_as_values(*self, *other);
        }
        !self.is_nan() && !other.is_nan() && self.rank_i64() == other.rank_i64()
    }
}

impl vstd::std_specs::cmp::PartialEqSpecImpl for Scalar {
    open spec fn obeys_eq_spec() -> bool {
        true
    }

    open spec fn eq_spec(&self, other: &Scalar) -> bool {
        self.same_number(*other)
    }
}

/// The absolute value, times two to the power of 1074, of the pattern with
/// magnitude bits `m`.
#[verifier::opaque]
pub open spec fn scaled(m: int) -> int {
    let e = m / (FRACTION_RANGE as int);
    let f = m % (FRACTION_RANGE as int);
    if e <= 0 {
        f
    } else {
        (FRACTION_RANGE + f) * pow2((e - 1) as nat)
    }
}

/// Larger magnitude bits encode a larger absolute value.
pub proof fn lemma_scaled_increases(m1: int, m2: int)
    requires
        0 <= m1 < m2,
    ensures
        0 <= scaled(m1) < scaled(m2),
{
    reveal(scaled);
    let r = FRACTION_RANGE as int;
    let e1 = m1 / r;
    let f1 = m1 % r;
    let e2 = m2 / r;
    let f2 = m2 % r;
    lemma_fundamental_div_mod(m1, r);
    lemma_fundamental_div_mod(m2, r);
    lemma_div_is_ordered(m1, m2, r);
    assert(0 <= f1 < r && 0 <= f2 < r);
    assert(0 <= e1 <= e2) by (nonlinear_arith)
        requires
            m1 == r * e1 + f1,
            0 <= f1 < r,
            0 <= m1,
            r > 0,
            e1 <= e2,
    ;
    if e1 == e2 {
        assert(f1 < f2);
        if e1 > 0 {
            let p = pow2((e1 - 1) as nat) as int;
            lemma_pow2_pos((e1 - 1) as nat);
            lemma_mul_strict_inequality(r + f1, r + f2, p);
            lemma_mul_inequality(0, r + f1, p);
        }
    } else {
        let pb = pow2((e2 - 1) as nat) as int;
        lemma_pow2_pos((e2 - 1) as nat);
        lemma_mul_inequality(1, pb, r + f2);
        assert((r + f2) * pb == pb * (r + f2)) by (nonlinear_arith);
        assert(r <= (r + f2) * pb);
        if e1 > 0 {
            let pa = pow2((e1 - 1) as nat) as int;
            lemma_pow2_pos((e1 - 1) as nat);
            lemma_pow2_unfold(e1 as nat);
            let q = pow2(e1 as nat) as int;
            assert(q == 2 * pa);
            if e1 < e2 - 1 {
                lemma_pow2_strictly_increases(e1 as nat, (e2 - 1) as nat);
            }
            assert(q <= pb);
            lemma_mul_strict_inequality(r + f1, 2 * r, pa);
            assert((2 * r) * pa == r * q) by (nonlinear_arith)
                requires
                    q == 2 * pa,
            ;
            lemma_mul_inequality(q, pb, r);
            assert(q * r == r * q && pb * r == r * pb) by (nonlinear_arith);
            lemma_mul_inequality(r, r + f2, pb);
            assert(r * pb <= (r + f2) * pb);
            lemma_mul_inequality(0, r + f1, pa);
        }
    }
}

/// The rank orders the values that are not NaN exactly as the numbers that
/// they encode are ordered, and gives two of them the same rank exactly
/// where they encode the same number.
pub proof fn lemma_rank_orders_as_values(a: Scalar, b: Scalar)
    ensures
        a.rank() < b.rank() <==> a.scaled_value() < b.scaled_value(),
        a.rank() == b.rank() <==> a.scaled_value() == b.scaled_value(),
{
    let ma = a.magnitude();
    let mb = b.magnitude();
    if ma < mb {
        lemma_scaled_increases(ma, mb);
    } else if mb < ma {
        lemma_scaled_increases(mb, ma);
    }
    if 0 < ma {
        lemma_scaled_increases(0, ma);
    }
    if 0 < mb {
        lemma_scaled_increases(0, mb);
    }
    lemma_zero_encodes_zero();
}

/// The comparisons, said over the rank: this is how they are computed.
pub proof fn lemma_compare_by_rank(a: Scalar, b: Scalar)
    ensures
        a.spec_lt(b) == (!a.spec_is_nan() && !b.spec_is_nan() && a.rank() < b.rank()),
        a.spec_le(b) == (!a.spec_is_nan() && !b.spec_is_nan() && a.rank() <= b.rank()),
        a.same_number(b) == (!a.spec_is_nan() && !b.spec_is_nan() && a.rank() == b.rank()),
{
    lemma_rank_orders_as_values(a, b);
}

/// Both zeros encode the number zero, and one encodes `2^1074 / 2^1074`.
pub proof fn lemma_zero_encodes_zero()
    ensures
        scaled(0) == 0,
        Scalar::spec_zero().scaled_value() == 0,
        Scalar::spec_zero().spec_neg().scaled_value() == 0,
        Scalar::spec_one().scaled_value() == pow2(1074),
        !Scalar::spec_zero().spec_is_nan(),
        !Scalar::spec_one().spec_is_nan(),
{
    reveal(scaled);
    let r = FRACTION_RANGE as int;
    assert(ONE_BITS as int == 1023 * r);
    assert((ONE_BITS as int) / r == 1023 && (ONE_BITS as int) % r == 0) by (nonlinear_arith)
        requires
            ONE_BITS as int == 1023 * r,
            r > 0,
    ;
    lemma_pow2_adds(52, 1022);
    vstd::arithmetic::power2::lemma2_to64_rest();
    assert(pow2(52) == r);
}

/// What lies strictly between two values is finite: an infinity has nothing
/// beyond it, and a NaN lies nowhere.
pub proof fn lemma_between_is_finite(low: Scalar, x: Scalar, high: Scalar)
    requires
        low.spec_lt(x),
        x.spec_lt(high),
    ensures
        x.spec_is_finite(),
{
    lemma_compare_by_rank(low, x);
    lemma_compare_by_rank(x, high);
}

/// Flipping the sign twice gives the value back, bit for bit.
pub proof fn lemma_neg_involution(a: Scalar)
    ensures
        a.spec_neg().spec_neg() == a,
{
}

/// The sign flip keeps the magnitude, and so keeps NaN apart from the
/// numbers; of a number it gives the negative.
pub proof fn lemma_neg_magnitude(a: Scalar)
    ensures
        a.spec_neg().magnitude() == a.magnitude(),
        a.spec_neg().spec_is_nan() == a.spec_is_nan(),
        a.spec_neg().scaled_value() == -a.scaled_value(),
{
    if a.magnitude() == 0 {
        lemma_zero_encodes_zero();
    }
}

/// The sign flip reverses the order.
pub proof fn lemma_neg_reverses(a: Scalar, b: Scalar)
    ensures
        a.spec_lt(b) == b.spec_neg().spec_lt(a.spec_neg()),
        a.spec_le(b) == b.spec_neg().spec_le(a.spec_neg()),
{
    lemma_neg_magnitude(a);
    lemma_neg_magnitude(b);
}

/// No value is below itself, and of two values at most one is below the other.
pub proof fn lemma_lt_asymmetric(a: Scalar, b: Scalar)
    ensures
        !a.spec_lt(a),
        a.spec_lt(b) ==> !b.spec_lt(a),
{
}

/// The order is transitive, also where `<` and `<=` mix.
pub proof fn lemma_lt_transitive(a: Scalar, b: Scalar, c: Scalar)
    ensures
        a.spec_lt(b) && b.spec_lt(c) ==> a.spec_lt(c),
        a.spec_lt(b) && b.spec_le(c) ==> a.spec_lt(c),
        a.spec_le(b) && b.spec_lt(c) ==> a.spec_lt(c),
        a.spec_le(b) && b.spec_le(c) ==> a.spec_le(c),
{
}

/// Two values that are not NaN are always comparable: one is below the other,
/// or they are the same number.
pub proof fn lemma_trichotomy(a: Scalar, b: Scalar)
    requires
        !a.spec_is_nan(),
        !b.spec_is_nan(),
    ensures
        a.spec_lt(b) || b.spec_lt(a) || a.same_number(b),
        a.spec_le(b) == !b.spec_lt(a),
        a.spec_le(b) == (a.spec_lt(b) || a.same_number(b)),
{
}

} // verus!
