//! Rectangles that lie in a plane at right angles to an axis.

use vstd::prelude::*;
use crate::hit::{oriented, spec_inside, HitRecord};
use crate::material::Material;
use crate::nearest::{lemma_nearest_empty, lemma_nearest_push, nearest, take_closer};
use crate::scalar::Scalar;
use crate::vec3::Vec3;

verus! {

/// The rectangle `x0..x1` by `y0..y1` in the plane `z = k`.
#[derive(Clone, Copy, Debug)]
pub struct XYRect {
    pub x0: Scalar,
    pub x1: Scalar,
    pub y0: Scalar,
    pub y1: Scalar,
    pub k: Scalar,
    pub mat: Material,
}

/// The rectangle `x0..x1` by `z0..z1` in the plane `y = k`.
#[derive(Clone, Copy, Debug)]
pub struct XZRect {
    pub x0: Scalar,
    pub x1: Scalar,
    pub z0: Scalar,
    pub z1: Scalar,
    pub k: Scalar,
    pub mat: Material,
}

/// The rectangle `y0..y1` by `z0..z1` in the plane `x = k`.
#[derive(Clone, Copy, Debug)]
pub struct YZRect {
    pub y0: Scalar,
    pub y1: Scalar,
    pub z0: Scalar,
    pub z1: Scalar,
    pub k: Scalar,
    pub mat: Material,
}

/// Where a ray crosses the plane of a rectangle. The plane fixes one
/// coordinate at `k`; with `o` and `d` for the ray's origin and direction
/// along that axis, the ray crosses at `t = (k - o) / d`. A ray that runs
/// along the plane divides by zero there, which gives an infinity or a NaN:
/// neither lies inside any interval, so such a ray never hits.
#[derive(Clone, Copy, Debug)]
pub struct PlaneCrossing {
    /// The parameter of the ray at the crossing.
    pub t: Scalar,
    /// The point of the ray at `t`.
    pub point: Vec3,
    /// The coordinate of that point along the rectangle's first free axis.
    pub a: Scalar,
    /// The coordinate of that point along the rectangle's second free axis.
    pub b: Scalar,
    /// How far along the first side the point lies, from 0 to 1.
    pub u: Scalar,
    /// How far along the second side the point lies, from 0 to 1.
    pub v: Scalar,
    /// The dot product of the ray's direction with the unit vector along the
    /// fixed axis.
    pub facing: Scalar,
}

/// The coordinate `x` lies beyond one of the bounds.
pub open spec fn spec_outside(x: Scalar, low: Scalar, high: Scalar) -> bool {
    x.spec_lt(low) || x.spec_gt(high)
}

#[verifier::when_used_as_spec(spec_outside)]
pub fn outside(x: Scalar, low: Scalar, high: Scalar) -> (r: bool)
    ensures
        r == spec_outside(x, low, high),
{
    x.lt(low) || x.gt(high)
}

/// The crossing lies on the rectangle `a0..a1` by `b0..b1`.
pub open spec fn on_rectangle(c: PlaneCrossing, a0: Scalar, a1: Scalar, b0: Scalar, b1: Scalar) -> bool {
    !spec_outside(c.a, a0, a1) && !spec_outside(c.b, b0, b1)
}

/// The hit at a crossing of a plane whose outward normal is `axis`.
pub open spec fn plane_record(c: PlaneCrossing, axis: Vec3, material: Material) -> HitRecord {
    HitRecord {
        t: c.t,
        point: c.point,
        normal: oriented(c.facing, axis),
        u: c.u,
        v: c.v,
        material,
    }
}

/// What a rectangle offers a ray: the crossing of its plane, where that lies
/// on the rectangle.
pub open spec fn plane_candidates(
    c: PlaneCrossing,
    a0: Scalar,
    a1: Scalar,
    b0: Scalar,
    b1: Scalar,
    axis: Vec3,
    material: Material,
) -> Seq<HitRecord> {
    if on_rectangle(c, a0, a1, b0, b1) {
        seq![plane_record(c, axis, material)]
    } else {
        Seq::empty()
    }
}

/// What a rectangle reports: the crossing of its plane where the parameter
/// lies strictly inside the interval and the point lies on the rectangle, and
/// nothing otherwise.
pub open spec fn plane_answer(
    c: PlaneCrossing,
    a0: Scalar,
    a1: Scalar,
    b0: Scalar,
    b1: Scalar,
    axis: Vec3,
    material: Material,
    t_min: Scalar,
    t_max: Scalar,
) -> Option<HitRecord> {
    if spec_inside(c.t, t_min, t_max) && on_rectangle(c, a0, a1, b0, b1) {
        Some(plane_record(c, axis, material))
    } else {
        None
    }
}

fn plane_hit(
    c: &PlaneCrossing,
    a0: Scalar,
    a1: Scalar,
    b0: Scalar,
    b1: Scalar,
    axis: Vec3,
    material: Material,
    t_min: Scalar,
    t_max: Scalar,
) -> (r: Option<HitRecord>)
    ensures
        r == nearest(plane_candidates(*c, a0, a1, b0, b1, axis, material), t_min, t_max),
        r == plane_answer(*c, a0, a1, b0, b1, axis, material, t_min, t_max),
{
    proof {
        lemma_plane_hit(*c, a0, a1, b0, b1, axis, material, t_min, t_max);
    }
    let ghost none = Seq::<HitRecord>::empty();
    proof {
        lemma_nearest_empty(t_min, t_max);
    }
    if outside(c.a, a0, a1) || outside(c.b, b0, b1) {
        return None;
    }
    let mut rec = HitRecord { t: c.t, point: c.point, normal: axis, u: c.u, v: c.v, material };
    rec.set_face_normal(c.facing, &axis);
    proof {
        lemma_nearest_push(none, rec, t_min, t_max);
        assert(plane_candidates(*c, a0, a1, b0, b1, axis, material) =~= none.push(rec));
    }
    take_closer(None, rec, t_min, t_max)
}

impl XYRect {
    pub open spec fn candidates(self, c: PlaneCrossing) -> Seq<HitRecord> {
        plane_candidates(c, self.x0, self.x1, self.y0, self.y1, Vec3::spec_unit_z(), self.mat)
    }

    pub fn new(x0: Scalar, x1: Scalar, y0: Scalar, y1: Scalar, k: Scalar, mat: Material) -> (r: XYRect)
        ensures
            r == (XYRect { x0, x1, y0, y1, k, mat }),
    {
        XYRect { x0, x1, y0, y1, k, mat }
    }

    /// The crossing of the plane `z = k`, where it lies on the rectangle and
    /// inside the interval. `c.a` is the point's x and `c.b` its y.
    pub fn hit(&self, c: &PlaneCrossing, t_min: Scalar, t_max: Scalar) -> (r: Option<HitRecord>)
        ensures
            r == nearest(self.candidates(*c), t_min, t_max),
            r == plane_answer(*c, self.x0, self.x1, self.y0, self.y1, Vec3::spec_unit_z(), self.mat, t_min, t_max),
    {
        plane_hit(c, self.x0, self.x1, self.y0, self.y1, Vec3::unit_z(), self.mat, t_min, t_max)
    }
}

impl XZRect {
    pub open spec fn candidates(self, c: PlaneCrossing) -> Seq<HitRecord> {
        plane_candidates(c, self.x0, self.x1, self.z0, self.z1, Vec3::spec_unit_y(), self.mat)
    }

    pub fn new(x0: Scalar, x1: Scalar, z0: Scalar, z1: Scalar, k: Scalar, mat: Material) -> (r: XZRect)
        ensures
            r == (XZRect { x0, x1, z0, z1, k, mat }),
    {
        XZRect { x0, x1, z0, z1, k, mat }
    }

    /// The crossing of the plane `y = k`, where it lies on the rectangle and
    /// inside the interval. `c.a` is the point's x and `c.b` its z.
    pub fn hit(&self, c: &PlaneCrossing, t_min: Scalar, t_max: Scalar) -> (r: Option<HitRecord>)
        ensures
            r == nearest(self.candidates(*c), t_min, t_max),
            r == plane_answer(*c, self.x0, self.x1, self.z0, self.z1, Vec3::spec_unit_y(), self.mat, t_min, t_max),
    {
        plane_hit(c, self.x0, self.x1, self.z0, self.z1, Vec3::unit_y(), self.mat, t_min, t_max)
    }
}

impl YZRect {
    pub open spec fn candidates(self, c: PlaneCrossing) -> Seq<HitRecord> {
        plane_candidates(c, self.y0, self.y1, self.z0, self.z1, Vec3::spec_unit_x(), self.mat)
    }

    pub fn new(y0: Scalar, y1: Scalar, z0: Scalar, z1: Scalar, k: Scalar, mat: Material) -> (r: YZRect)
        ensures
            r == (YZRect { y0, y1, z0, z1, k, mat }),
    {
        YZRect { y0, y1, z0, z1, k, mat }
    }

    /// The crossing of the plane `x = k`, where it lies on the rectangle and
    /// inside the interval. `c.a` is the point's y and `c.b` its z.
    pub fn hit(&self, c: &PlaneCrossing, t_min: Scalar, t_max: Scalar) -> (r: Option<HitRecord>)
        ensures
            r == nearest(self.candidates(*c), t_min, t_max),
            r == plane_answer(*c, self.y0, self.y1, self.z0, self.z1, Vec3::spec_unit_x(), self.mat, t_min, t_max),
    {
        plane_hit(c, self.y0, self.y1, self.z0, self.z1, Vec3::unit_x(), self.mat, t_min, t_max)
    }
}

/// The one candidate of a rectangle is found by the search exactly where the
/// rectangle's own rule reports it.
pub proof fn lemma_plane_hit(
    c: PlaneCrossing,
    a0: Scalar,
    a1: Scalar,
    b0: Scalar,
    b1: Scalar,
    axis: Vec3,
    material: Material,
    t_min: Scalar,
    t_max: Scalar,
)
    ensures
        nearest(plane_candidates(c, a0, a1, b0, b1, axis, material), t_min, t_max) == plane_answer(
            c,
            a0,
            a1,
            b0,
            b1,
            axis,
            material,
            t_min,
            t_max,
        ),
{
    let none = Seq::<HitRecord>::empty();
    lemma_nearest_empty(t_min, t_max);
    if on_rectangle(c, a0, a1, b0, b1) {
        let rec = plane_record(c, axis, material);
        lemma_nearest_push(none, rec, t_min, t_max);
        assert(plane_candidates(c, a0, a1, b0, b1, axis, material) =~= none.push(rec));
    }
}

} // verus!
