//! Hits: what an intersection is, what can be hit, and the search for the
//! nearest hit in a scene.

use vstd::prelude::*;
use crate::cube::Cube;
use crate::cylinder::{Cylinder, CylinderCrossings};
use crate::material::Material;
use crate::nearest::{
    any_inside, lemma_nearest_concat, lemma_nearest_concat_shrink, lemma_nearest_empty, lemma_nearest_is_least,
    nearer_of, nearest, upper,
};
use crate::rect::{PlaneCrossing, XYRect, XZRect, YZRect};
use crate::scalar::Scalar;
use crate::sphere::{Sphere, SphereCrossings};
use crate::vec3::Vec3;

verus! {

/// One intersection of a ray with a surface.
#[derive(Clone, Copy, Debug)]
pub struct HitRecord {
    /// The parameter of the ray at the intersection.
    pub t: Scalar,
    /// Where in space the intersection lies.
    pub point: Vec3,
    /// The surface normal there, oriented by the front-face rule.
    pub normal: Vec3,
    /// Surface coordinates; zero where the surface has none.
    pub u: Scalar,
    pub v: Scalar,
    /// What the surface is made of.
    pub material: Material,
}

/// `t` lies strictly between `t_min` and `t_max`. No NaN lies inside any
/// interval, and no interval with a NaN for a bound has anything inside.
pub open spec fn spec_inside(t: Scalar, t_min: Scalar, t_max: Scalar) -> bool {
    t_min.spec_lt(t) && t.spec_lt(t_max)
}

/// The front-face rule. `facing` is the dot product of the ray's direction
/// with the outward normal of the surface: where it is above zero the outward
/// normal stands, in every other case (zero and NaN too) it is flipped.
pub open spec fn oriented(facing: Scalar, outward_normal: Vec3) -> Vec3 {
    if facing.spec_gt(Scalar::spec_zero()) {
        outward_normal
    } else {
        outward_normal.negated()
    }
}

#[verifier::when_used_as_spec(spec_inside)]
pub fn inside(t: Scalar, t_min: Scalar, t_max: Scalar) -> (r: bool)
    ensures
        r == spec_inside(t, t_min, t_max),
{
    t_min.lt(t) && t.lt(t_max)
}

/// One place where a ray meets a curved surface, as computed for that ray.
#[derive(Clone, Copy, Debug)]
pub struct Crossing {
    /// The parameter of the ray at the crossing.
    pub t: Scalar,
    /// The point of the ray at `t`.
    pub point: Vec3,
    /// The normal of the surface at that point, of unit length and pointing
    /// away from the body.
    pub outward: Vec3,
    /// The dot product of the ray's direction with `outward`.
    pub facing: Scalar,
}

impl Crossing {
    /// The hit at this crossing on a surface of the given material. A curved
    /// surface has no surface coordinates: both are zero.
    pub open spec fn spec_record(self, material: Material) -> HitRecord {
        HitRecord {
            t: self.t,
            point: self.point,
            normal: oriented(self.facing, self.outward),
            u: Scalar::spec_zero(),
            v: Scalar::spec_zero(),
            material,
        }
    }

    #[verifier::when_used_as_spec(spec_record)]
    pub fn record(self, material: Material) -> (r: HitRecord)
        ensures
            r == self.spec_record(material),
    {
        let mut r = HitRecord {
            t: self.t,
            point: self.point,
            normal: self.outward,
            u: Scalar::zero(),
            v: Scalar::zero(),
            material,
        };
        r.set_face_normal(self.facing, &self.outward);
        r
    }
}

impl HitRecord {
    /// All zero, with the default material.
    pub open spec fn spec_default() -> HitRecord {
        HitRecord {
            t: Scalar::spec_zero(),
            point: Vec3::spec_zero(),
            normal: Vec3::spec_zero(),
            u: Scalar::spec_zero(),
            v: Scalar::spec_zero(),
            material: Material::Lambertian { albedo: crate::color::Color::spec_black() },
        }
    }

    /// Sets the normal by the front-face rule and leaves the rest alone.
    pub fn set_face_normal(&mut self, facing: Scalar, outward_normal: &Vec3)
        ensures
            final(self).normal == oriented(facing, *outward_normal),
            final(self).t == old(self).t,
            final(self).point == old(self).point,
            final(self).u == old(self).u,
            final(self).v == old(self).v,
            final(self).material == old(self).material,
    {
        if facing.gt(Scalar::zero()) {
            self.normal = *outward_normal;
        } else {
            self.normal = core::ops::Neg::neg(*outward_normal);
        }
    }
}

impl Default for HitRecord {
    fn default() -> (r: HitRecord)
        ensures
            r == HitRecord::spec_default(),
    {
        HitRecord {
            t: Scalar::zero(),
            point: Vec3::zero(),
            normal: Vec3::zero(),
            u: Scalar::zero(),
            v: Scalar::zero(),
            material: Material::default(),
        }
    }
}

/// Nothing that is not finite lies inside an interval, whatever its bounds:
/// the parameter of a ray that runs along a plane, which is an infinity or a
/// NaN, is never the parameter of a hit.
pub proof fn lemma_inside_is_finite(t: Scalar, t_min: Scalar, t_max: Scalar)
    ensures
        spec_inside(t, t_min, t_max) ==> t.spec_is_finite(),
{
    if spec_inside(t, t_min, t_max) {
        crate::scalar::lemma_between_is_finite(t_min, t, t_max);
    }
}

/// The rule never changes the line the normal lies on: the result is the
/// outward normal or its flip, and orienting by the opposite sign of a
/// non-zero number gives the opposite normal.
pub proof fn lemma_oriented_sides(facing: Scalar, outward_normal: Vec3)
    ensures
        oriented(facing, outward_normal) == outward_normal
            || oriented(facing, outward_normal) == outward_normal.negated(),
        facing.spec_gt(Scalar::spec_zero()) ==> oriented(facing.spec_neg(), outward_normal)
            == oriented(facing, outward_normal).negated(),
        facing.spec_lt(Scalar::spec_zero()) ==> oriented(facing.spec_neg(), outward_normal).negated()
            == oriented(facing, outward_normal),
{
    crate::scalar::lemma_neg_magnitude(facing);
    crate::scalar::lemma_zero_encodes_zero();
    crate::vec3::lemma_negated_twice(outward_normal);
}

/// Anything a ray can hit. The set is closed.
#[derive(Debug)]
pub enum Hittable {
    Sphere(Sphere),
    XYRect(XYRect),
    XZRect(XZRect),
    YZRect(YZRect),
    Cube(Cube),
    Cylinder(Cylinder),
    List(HittableList),
}

/// Hittables in a fixed order. The order decides nothing but ties.
#[derive(Debug)]
pub struct HittableList(pub Vec<Hittable>);

/// What one ray does to a hittable: for a primitive its crossings, for a box
/// or a list what the ray does to each member, in the members' order.
#[derive(Debug)]
pub enum Crossings {
    Sphere(SphereCrossings),
    Plane(PlaneCrossing),
    Cylinder(CylinderCrossings),
    Members(Vec<Crossings>),
}

impl View for HittableList {
    type V = Seq<Hittable>;

    open spec fn view(&self) -> Seq<Hittable> {
        self.0@
    }
}

impl Hittable {
    /// The crossings are of the kind that this hittable reads, all the way
    /// down.
    pub open spec fn admits(self, c: Crossings) -> bool
        decreases self,
    {
        match self {
            Hittable::Sphere(_) => c is Sphere,
            Hittable::XYRect(_) => c is Plane,
            Hittable::XZRect(_) => c is Plane,
            Hittable::YZRect(_) => c is Plane,
            Hittable::Cylinder(_) => c is Cylinder,
            Hittable::Cube(b) => c matches Crossings::Members(m) && members_admit(b.sides.0@, m@),
            Hittable::List(l) => c matches Crossings::Members(m) && members_admit(l.0@, m@),
        }
    }

    /// Every hit that this hittable offers the ray, whatever the interval. A
    /// hittable reads crossings of its own kind only, and offers nothing
    /// where it is handed another.
    pub open spec fn candidates(self, c: Crossings) -> Seq<HitRecord>
        decreases self,
    {
        match (self, c) {
            (Hittable::Sphere(s), Crossings::Sphere(x)) => s.candidates(x),
            (Hittable::XYRect(r), Crossings::Plane(x)) => r.candidates(x),
            (Hittable::XZRect(r), Crossings::Plane(x)) => r.candidates(x),
            (Hittable::YZRect(r), Crossings::Plane(x)) => r.candidates(x),
            (Hittable::Cylinder(y), Crossings::Cylinder(x)) => y.candidates(x),
            (Hittable::Cube(b), Crossings::Members(m)) => members_candidates(b.sides.0@, m@),
            (Hittable::List(l), Crossings::Members(m)) => members_candidates(l.0@, m@),
            _ => Seq::empty(),
        }
    }

    /// The nearest hit strictly inside the interval, if there is one: of all
    /// that this hittable offers the ray inside the interval, the one with
    /// the least parameter, and of several with the least parameter the
    /// first.
    pub fn hit(&self, c: &Crossings, t_min: Scalar, t_max: Scalar) -> (r: Option<HitRecord>)
        ensures
            r == nearest(self.candidates(*c), t_min, t_max),
            r is Some <==> any_inside(self.candidates(*c), t_min, t_max),
            r matches Some(h) ==> spec_inside(h.t, t_min, t_max),
        decreases self,
    {
        proof {
            lemma_nearest_is_least(self.candidates(*c), t_min, t_max);
        }
        match (self, c) {
            (Hittable::Sphere(s), Crossings::Sphere(x)) => s.hit(x, t_min, t_max),
            (Hittable::XYRect(r), Crossings::Plane(x)) => r.hit(x, t_min, t_max),
            (Hittable::XZRect(r), Crossings::Plane(x)) => r.hit(x, t_min, t_max),
            (Hittable::YZRect(r), Crossings::Plane(x)) => r.hit(x, t_min, t_max),
            (Hittable::Cylinder(y), Crossings::Cylinder(x)) => y.hit(x, t_min, t_max),
            (Hittable::Cube(b), Crossings::Members(m)) => b.sides.hit(m, t_min, t_max),
            (Hittable::List(l), Crossings::Members(m)) => l.hit(m, t_min, t_max),
            _ => {
                proof {
                    lemma_nearest_empty(t_min, t_max);
                }
                None
            },
        }
    }

    /// Tests whether the crossings are of the kind that this hittable reads.
    pub fn accepts(&self, c: &Crossings) -> (r: bool)
        ensures
            r == self.admits(*c),
        decreases self,
    {
        match self {
            Hittable::Sphere(_) => match c {
                Crossings::Sphere(_) => true,
                _ => false,
            },
            Hittable::XYRect(_) | Hittable::XZRect(_) | Hittable::YZRect(_) => match c {
                Crossings::Plane(_) => true,
                _ => false,
            },
            Hittable::Cylinder(_) => match c {
                Crossings::Cylinder(_) => true,
                _ => false,
            },
            Hittable::Cube(b) => match c {
                Crossings::Members(m) => b.sides.accepts(m),
                _ => false,
            },
            Hittable::List(l) => match c {
                Crossings::Members(m) => l.accepts(m),
                _ => false,
            },
        }
    }
}

/// There is one set of crossings for each member, of the kind that it reads.
pub open spec fn members_admit(hs: Seq<Hittable>, cs: Seq<Crossings>) -> bool
    decreases hs,
{
    &&& hs.len() == cs.len()
    &&& forall|i: int| 0 <= i < hs.len() ==> (#[trigger] hs[i]).admits(cs[i])
}

/// The candidates of all members, in the members' order. Member `i` reads the
/// crossings at index `i`; a member for which there are none offers nothing.
pub open spec fn members_candidates(hs: Seq<Hittable>, cs: Seq<Crossings>) -> Seq<HitRecord>
    decreases hs,
{
    if hs.len() == 0 {
        Seq::empty()
    } else if hs.len() <= cs.len() {
        members_candidates(hs.drop_last(), cs) + hs.last().candidates(cs[hs.len() - 1])
    } else {
        members_candidates(hs.drop_last(), cs)
    }
}

/// What member `i` offers the ray.
pub open spec fn offer(hs: Seq<Hittable>, cs: Seq<Crossings>, i: int) -> Seq<HitRecord> {
    if 0 <= i < hs.len() && i < cs.len() {
        hs[i].candidates(cs[i])
    } else {
        Seq::empty()
    }
}

/// The nearest of what the members answer when each is asked alone in the
/// whole interval; an earlier member wins a tie.
pub open spec fn nearest_answer(hs: Seq<Hittable>, cs: Seq<Crossings>, t_min: Scalar, t_max: Scalar) -> Option<
    HitRecord,
>
    decreases hs.len(),
{
    if hs.len() == 0 {
        None
    } else {
        nearer_of(
            nearest_answer(hs.drop_last(), cs, t_min, t_max),
            nearest(offer(hs, cs, hs.len() - 1), t_min, t_max),
        )
    }
}

impl HittableList {
    pub fn new(list: Vec<Hittable>) -> (l: HittableList)
        ensures
            l@ == list@,
    {
        HittableList(list)
    }

    /// Tests whether there is one set of crossings for each member, of the
    /// kind that it reads.
    pub fn accepts(&self, c: &Vec<Crossings>) -> (r: bool)
        ensures
            r == members_admit(self@, c@),
        decreases self,
    {
        let n = self.0.len();
        if c.len() != n {
            return false;
        }
        let mut i: usize = 0;
        while i < n
            invariant
                n == self.0.len(),
                n == c.len(),
                i <= n,
                forall|j: int| 0 <= j < i ==> (#[trigger] self@[j]).admits(c@[j]),
            decreases n - i,
        {
            if !self.0[i].accepts(&c[i]) {
                return false;
            }
            i += 1;
        }
        true
    }

    /// The nearest hit strictly inside the interval among all members, if
    /// there is one.
    ///
    /// The members are asked in order, each in the interval that the best hit
    /// so far has shrunk: a later member can only answer with something
    /// nearer.
    pub fn hit(&self, c: &Vec<Crossings>, t_min: Scalar, t_max: Scalar) -> (r: Option<HitRecord>)
        ensures
            r == nearest(members_candidates(self@, c@), t_min, t_max),
            r is Some <==> any_inside(members_candidates(self@, c@), t_min, t_max),
            r matches Some(h) ==> spec_inside(h.t, t_min, t_max),
            self@.len() == 0 ==> r is None,
        decreases self,
    {
        proof {
            lemma_nearest_is_least(members_candidates(self@, c@), t_min, t_max);
        }
        let mut best: Option<HitRecord> = None;
        let mut closest = t_max;
        let n = self.0.len();
        let mut i: usize = 0;
        proof {
            lemma_nearest_empty(t_min, t_max);
            assert(self@.take(0).len() == 0);
        }
        while i < n
            invariant
                n == self.0.len(),
                i <= n,
                best == nearest(members_candidates(self@.take(i as int), c@), t_min, t_max),
                closest == upper(best, t_max),
                i == 0 ==> best is None,
            decreases n - i,
        {
            proof {
                lemma_members_candidates_step(self@, c@, i as int);
                lemma_nearest_concat_shrink(
                    members_candidates(self@.take(i as int), c@),
                    offer(self@, c@, i as int),
                    t_min,
                    t_max,
                );
                lemma_nearest_empty(t_min, closest);
            }
            let found = if i < c.len() {
                self.0[i].hit(&c[i], t_min, closest)
            } else {
                None
            };
            match found {
                Some(rec) => {
                    closest = rec.t;
                    best = Some(rec);
                },
                None => {},
            }
            i += 1;
        }
        proof {
            assert(self@.take(n as int) =~= self@);
        }
        best
    }
}

/// The candidates of the first `i + 1` members are those of the first `i`,
/// followed by what member `i` offers.
pub proof fn lemma_members_candidates_step(hs: Seq<Hittable>, cs: Seq<Crossings>, i: int)
    requires
        0 <= i < hs.len(),
    ensures
        members_candidates(hs.take(i + 1), cs) == members_candidates(hs.take(i), cs) + offer(hs, cs, i),
{
    assert(hs.take(i + 1).drop_last() =~= hs.take(i));
    assert(hs.take(i + 1).last() == hs[i]);
    assert(members_candidates(hs.take(i), cs) + Seq::<HitRecord>::empty() =~= members_candidates(
        hs.take(i),
        cs,
    ));
}

/// The candidates of a list are what its members offer, one after another.
pub proof fn lemma_members_candidates_last(hs: Seq<Hittable>, cs: Seq<Crossings>)
    requires
        hs.len() > 0,
    ensures
        members_candidates(hs, cs) == members_candidates(hs.drop_last(), cs) + offer(hs, cs, hs.len() - 1),
{
    lemma_members_candidates_step(hs, cs, hs.len() - 1);
    assert(hs.take(hs.len() as int) =~= hs);
    assert(hs.take(hs.len() - 1) =~= hs.drop_last());
}

/// A list with no members is never hit.
pub proof fn lemma_empty_list_misses(cs: Seq<Crossings>, t_min: Scalar, t_max: Scalar)
    ensures
        nearest(members_candidates(Seq::<Hittable>::empty(), cs), t_min, t_max) is None,
{
    lemma_nearest_empty(t_min, t_max);
}

/// What a list reports is the nearest of what its members report when each is
/// asked alone in the whole interval.
pub proof fn lemma_list_reports_nearest_answer(
    hs: Seq<Hittable>,
    cs: Seq<Crossings>,
    t_min: Scalar,
    t_max: Scalar,
)
    ensures
        nearest(members_candidates(hs, cs), t_min, t_max) == nearest_answer(hs, cs, t_min, t_max),
    decreases hs.len(),
{
    if hs.len() == 0 {
        lemma_nearest_empty(t_min, t_max);
    } else {
        lemma_list_reports_nearest_answer(hs.drop_last(), cs, t_min, t_max);
        lemma_members_candidates_last(hs, cs);
        lemma_nearest_concat(
            members_candidates(hs.drop_last(), cs),
            offer(hs, cs, hs.len() - 1),
            t_min,
            t_max,
        );
    }
}

/// What a list reports is no farther than what any member reports when asked
/// alone in the whole interval: if a member is hit, so is the list, and at a
/// parameter that is not above the member's.
pub proof fn lemma_list_not_beyond_member(
    hs: Seq<Hittable>,
    cs: Seq<Crossings>,
    t_min: Scalar,
    t_max: Scalar,
    i: int,
)
    requires
        0 <= i < hs.len(),
    ensures
        nearest(offer(hs, cs, i), t_min, t_max) matches Some(m) ==> (nearest(
            members_candidates(hs, cs),
            t_min,
            t_max,
        ) matches Some(r) && r.t.spec_le(m.t)),
    decreases hs.len(),
{
    let before = members_candidates(hs.drop_last(), cs);
    let last = offer(hs, cs, hs.len() - 1);
    lemma_members_candidates_last(hs, cs);
    lemma_nearest_concat(before, last, t_min, t_max);
    lemma_nearest_is_least(before, t_min, t_max);
    lemma_nearest_is_least(last, t_min, t_max);
    if i < hs.len() - 1 {
        lemma_list_not_beyond_member(hs.drop_last(), cs, t_min, t_max, i);
        assert(hs.drop_last()[i] == hs[i]);
        assert(offer(hs.drop_last(), cs, i) == offer(hs, cs, i));
    }
}

/// What a list reports is what one of its members reports when asked alone in
/// the whole interval; a list that reports nothing has no member that
/// reports anything.
pub proof fn lemma_list_reports_a_member(hs: Seq<Hittable>, cs: Seq<Crossings>, t_min: Scalar, t_max: Scalar)
    ensures
        nearest(members_candidates(hs, cs), t_min, t_max) matches Some(r) ==> exists|i: int|
            0 <= i < hs.len() && nearest(#[trigger] offer(hs, cs, i), t_min, t_max) == Some(r),
        nearest(members_candidates(hs, cs), t_min, t_max) is None ==> forall|i: int|
            0 <= i < hs.len() ==> nearest(#[trigger] offer(hs, cs, i), t_min, t_max) is None,
    decreases hs.len(),
{
    if hs.len() == 0 {
        lemma_nearest_empty(t_min, t_max);
    } else {
        let n = hs.len() as int;
        let before = members_candidates(hs.drop_last(), cs);
        let last = offer(hs, cs, n - 1);
        lemma_members_candidates_last(hs, cs);
        lemma_nearest_concat(before, last, t_min, t_max);
        lemma_list_reports_a_member(hs.drop_last(), cs, t_min, t_max);
        assert forall|i: int| 0 <= i < n - 1 implies offer(hs.drop_last(), cs, i) == #[trigger] offer(
            hs,
            cs,
            i,
        ) by {
            assert(hs.drop_last()[i] == hs[i]);
        }
        let whole = nearest(members_candidates(hs, cs), t_min, t_max);
        match whole {
            Some(r) => {
                if nearest(last, t_min, t_max) == Some(r) {
                    assert(nearest(offer(hs, cs, n - 1), t_min, t_max) == Some(r));
                } else {
                    assert(nearest(before, t_min, t_max) == Some(r));
                    let i = choose|i: int|
                        0 <= i < n - 1 && nearest(#[trigger] offer(hs.drop_last(), cs, i), t_min, t_max)
                            == Some(r);
                    assert(offer(hs.drop_last(), cs, i) == offer(hs, cs, i));
                    assert(nearest(offer(hs, cs, i), t_min, t_max) == Some(r));
                }
            },
            None => {
                assert forall|i: int| 0 <= i < hs.len() implies nearest(
                    #[trigger] offer(hs, cs, i),
                    t_min,
                    t_max,
                ) is None by {
                    if i < n - 1 {
                        assert(offer(hs.drop_last(), cs, i) == offer(hs, cs, i));
                    }
                }
            },
        }
    }
}

} // verus!
