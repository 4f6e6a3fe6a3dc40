//! Points and directions.

use vstd::prelude::*;
use vstd::std_specs::ops::NegSpecImpl;
use crate::scalar::Scalar;

verus! {

/// Three components: a point or a direction in space.
#[derive(Clone, Copy, Debug)]
pub struct Vec3(pub Scalar, pub Scalar, pub Scalar);

impl Vec3 {
    /// Every component with its sign flipped.
    pub open spec fn negated(self) -> Vec3 {
        Vec3(self.0.spec_neg(), self.1.spec_neg(), self.2.spec_neg())
    }

    /// Component by component the same numbers, as IEEE 754 compares them.
    pub open spec fn same_numbers(self, other: Vec3) -> bool {
        self.0.same_number(other.0) && self.1.same_number(other.1) && self.2.same_number(other.2)
    }

    /// The origin.
    pub open spec fn spec_zero() -> Vec3 {
        Vec3(Scalar::spec_zero(), Scalar::spec_zero(), Scalar::spec_zero())
    }

    /// The unit vector along the first axis.
    pub open spec fn spec_unit_x() -> Vec3 {
        Vec3(Scalar::spec_one(), Scalar::spec_zero(), Scalar::spec_zero())
    }

    /// The unit vector along the second axis, which points up.
    pub open spec fn spec_unit_y() -> Vec3 {
        Vec3(Scalar::spec_zero(), Scalar::spec_one(), Scalar::spec_zero())
    }

    /// The unit vector along the third axis.
    pub open spec fn spec_unit_z() -> Vec3 {
        Vec3(Scalar::spec_zero(), Scalar::spec_zero(), Scalar::spec_one())
    }

    pub fn new(x: Scalar, y: Scalar, z: Scalar) -> (r: Vec3)
        ensures
            r == Vec3(x, y, z),
    {
        Vec3(x, y, z)
    }

    pub fn x(self) -> (r: Scalar)
        ensures
            r == self.0,
    {
        self.0
    }

    pub fn y(self) -> (r: Scalar)
        ensures
            r == self.1,
    {
        self.1
    }

    pub fn z(self) -> (r: Scalar)
        ensures
            r == self.2,
    {
        self.2
    }

    #[verifier::when_used_as_spec(spec_unit_x)]
    pub fn unit_x() -> (r: Vec3)
        ensures
            r == Vec3::spec_unit_x(),
    {
        Vec3(Scalar::one(), Scalar::zero(), Scalar::zero())
    }

    #[verifier::when_used_as_spec(spec_unit_y)]
    pub fn unit_y() -> (r: Vec3)
        ensures
            r == Vec3::spec_unit_y(),
    {
        Vec3(Scalar::zero(), Scalar::one(), Scalar::zero())
    }

    #[verifier::when_used_as_spec(spec_unit_z)]
    pub fn unit_z() -> (r: Vec3)
        ensures
            r == Vec3::spec_unit_z(),
    {
        Vec3(Scalar::zero(), Scalar::zero(), Scalar::one())
    }

    #[verifier::when_used_as_spec(spec_zero)]
    pub fn zero() -> (r: Vec3)
        ensures
            r == Vec3::spec_zero(),
    {
        Vec3(Scalar::zero(), Scalar::zero(), Scalar::zero())
    }
}

impl Default for Vec3 {
    fn default() -> (r: Vec3)
        ensures
            r == Vec3::spec_zero(),
    {
        Vec3::zero()
    }
}

impl PartialEq for Vec3 {
    fn eq(&self, other: &Vec3) -> (r: bool) {
        self.0 == other.0 && self.1 == other.1 && self.2 == other.2
    }
}

impl vstd::std_specs::cmp::PartialEqSpecImpl for Vec3 {
    open spec fn obeys_eq_spec() -> bool {
        true
    }

    open spec fn eq_spec(&self, other: &Vec3) -> bool {
        self.same_numbers(*other)
    }
}

impl core::ops::Neg for Vec3 {
    type Output = Vec3;

    fn neg(self) -> (r: Vec3) {
        Vec3(self.0.neg(), self.1.neg(), self.2.neg())
    }
}

impl NegSpecImpl for Vec3 {
    open spec fn obeys_neg_spec() -> bool {
        true
    }

    open spec fn neg_req(self) -> bool {
        true
    }

    open spec fn neg_spec(self) -> Vec3 {
        self.negated()
    }
}

/// Flipping a vector twice gives it back, bit for bit.
pub proof fn lemma_negated_twice(v: Vec3)
    ensures
        v.negated().negated() == v,
{
}

} // verus!
