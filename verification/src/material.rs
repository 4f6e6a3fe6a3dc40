//! Materials and how they scatter light.

use vstd::prelude::*;
use crate::color::Color;
use crate::hit::HitRecord;
use crate::ray::Ray;
use crate::scalar::Scalar;
use crate::vec3::Vec3;

verus! {

/// What a surface is made of. The set is closed: these three and no other.
#[derive(Clone, Copy, Debug)]
pub enum Material {
    /// A matte surface that scatters in every direction.
    Lambertian { albedo: Color },
    /// A mirror with a tint.
    Metal { albedo: Color },
    /// Clear matter that both reflects and refracts, such as glass.
    Dielectric { ref_idx: Scalar },
}

/// What the caller has computed for a ray at a hit, so that the material
/// there can decide what becomes of the light. A material reads the fields
/// that are named for it and no other.
#[derive(Clone, Copy, Debug)]
pub struct Scattering {
    /// For a Lambertian surface: the normal at the hit plus a random point
    /// inside the unit sphere.
    pub diffuse: Vec3,
    /// For a metal and a dielectric: the incoming direction mirrored at the
    /// surface, `v - 2 (v.n) n` for the direction `v` and the normal `n` of
    /// the hit. For a metal, `v` is scaled to unit length first.
    pub reflected: Vec3,
    /// For a metal: the dot product of `reflected` with the normal of the
    /// hit.
    pub reflected_facing: Scalar,
    /// For a dielectric: the direction of the refracted ray,
    /// `r (v - (v.n) n) - sqrt(discriminant) n` in the terms of
    /// `discriminant`. It means nothing where there is no such ray.
    pub refracted: Vec3,
    /// For a dielectric: `1 - r^2 (1 - (v.n)^2)` for the ratio `r` of the
    /// refractive indices, the unit incoming direction `v` and the normal
    /// `n` on the side that the ray comes from. A refracted ray exists where
    /// this is above zero.
    pub discriminant: Scalar,
    /// For a dielectric: Schlick's approximation of the reflectance,
    /// `r0 + (1 - r0) (1 - cosine)^5` with `r0 = ((1 - n) / (1 + n))^2`.
    pub schlick: Scalar,
    /// For a dielectric: a uniform random number from 0 up to, not
    /// including, 1.
    pub draw: Scalar,
}

/// On which side of a dielectric's surface a ray travels, and the normal
/// that the refraction is computed with.
#[derive(Clone, Copy, Debug)]
pub struct Boundary {
    /// The ray is inside the body, on its way out.
    pub leaving: bool,
    /// The normal that points to the side the ray comes from.
    pub outward_normal: Vec3,
}

impl Default for Material {
    fn default() -> (m: Material)
        ensures
            m == (Material::Lambertian { albedo: Color::spec_black() }),
    {
        Material::Lambertian { albedo: Color::black() }
    }
}

impl Default for Scattering {
    fn default() -> (s: Scattering)
        ensures
            s == (Scattering {
                diffuse: Vec3::spec_zero(),
                reflected: Vec3::spec_zero(),
                reflected_facing: Scalar::spec_zero(),
                refracted: Vec3::spec_zero(),
                discriminant: Scalar::spec_zero(),
                schlick: Scalar::spec_zero(),
                draw: Scalar::spec_zero(),
            }),
    {
        Scattering {
            diffuse: Vec3::zero(),
            reflected: Vec3::zero(),
            reflected_facing: Scalar::zero(),
            refracted: Vec3::zero(),
            discriminant: Scalar::zero(),
            schlick: Scalar::zero(),
            draw: Scalar::zero(),
        }
    }
}

/// The share of the light that a dielectric reflects: Schlick's value where a
/// refracted ray exists, and all of it where none does.
pub open spec fn reflectance(s: Scattering) -> Scalar {
    if s.discriminant.spec_gt(Scalar::spec_zero()) {
        s.schlick
    } else {
        Scalar::spec_one()
    }
}

/// The direction in which a dielectric sends the light on: the reflected one
/// where the draw falls below the reflectance, else the refracted one. With
/// a draw from 0 up to 1 the light is reflected with a chance equal to the
/// reflectance.
pub open spec fn glass_direction(s: Scattering) -> Vec3 {
    if s.draw.spec_lt(reflectance(s)) {
        s.reflected
    } else {
        s.refracted
    }
}

/// What becomes of the light at a hit: nothing where the surface absorbs it,
/// else the factor by which the surface dims it and the ray that carries it
/// on from the point of the hit.
///
/// A Lambertian surface always scatters. A metal scatters where the mirrored
/// direction leaves the surface, and absorbs where it would run into it. A
/// dielectric always scatters, and dims nothing.
pub open spec fn spec_scatter(material: Material, rec: HitRecord, s: Scattering) -> Option<(Color, Ray)> {
    match material {
        Material::Lambertian { albedo } => Some((albedo, Ray { origin: rec.point, direction: s.diffuse })),
        Material::Metal { albedo } => if s.reflected_facing.spec_gt(Scalar::spec_zero()) {
            Some((albedo, Ray { origin: rec.point, direction: s.reflected }))
        } else {
            None
        },
        Material::Dielectric { .. } => Some(
            (Color::spec_white(), Ray { origin: rec.point, direction: glass_direction(s) }),
        ),
    }
}

/// Decides what becomes of the light at a hit.
pub fn scatter(material: &Material, rec: &HitRecord, s: &Scattering) -> (r: Option<(Color, Ray)>)
    ensures
        r == spec_scatter(*material, *rec, *s),
        r is None <==> material is Metal && !s.reflected_facing.spec_gt(Scalar::spec_zero()),
        r matches Some((_, ray)) ==> ray.origin == rec.point,
{
    match material {
        Material::Lambertian { albedo } => Some((*albedo, Ray::new(rec.point, s.diffuse))),
        Material::Metal { albedo } => {
            if s.reflected_facing.gt(Scalar::zero()) {
                Some((*albedo, Ray::new(rec.point, s.reflected)))
            } else {
                None
            }
        },
        Material::Dielectric { .. } => {
            let threshold = if s.discriminant.gt(Scalar::zero()) {
                s.schlick
            } else {
                Scalar::one()
            };
            let direction = if s.draw.lt(threshold) {
                s.reflected
            } else {
                s.refracted
            };
            Some((Color::white(), Ray::new(rec.point, direction)))
        },
    }
}

/// Tells on which side of a dielectric's surface a ray travels. `facing` is
/// the dot product of the ray's direction with the normal of the hit: above
/// zero, the ray is on its way out and the normal is flipped to meet it.
pub fn boundary(facing: Scalar, normal: Vec3) -> (b: Boundary)
    ensures
        b.leaving == facing.spec_gt(Scalar::spec_zero()),
        b.outward_normal == if b.leaving {
            normal.negated()
        } else {
            normal
        },
{
    if facing.gt(Scalar::zero()) {
        Boundary { leaving: true, outward_normal: core::ops::Neg::neg(normal) }
    } else {
        Boundary { leaving: false, outward_normal: normal }
    }
}

/// A metal sends the light on in exactly the mirrored direction that it was
/// handed, and only where that direction leaves the surface.
pub proof fn lemma_metal_mirrors(albedo: Color, rec: HitRecord, s: Scattering)
    ensures
        spec_scatter(Material::Metal { albedo }, rec, s) matches Some((tint, ray)) ==> tint == albedo
            && ray.origin == rec.point && ray.direction == s.reflected && s.reflected_facing.spec_gt(
            Scalar::spec_zero(),
        ),
        spec_scatter(Material::Metal { albedo }, rec, s) is None <==> !s.reflected_facing.spec_gt(
            Scalar::spec_zero(),
        ),
{
}

/// Total internal reflection: where no refracted ray exists, a dielectric
/// reflects whatever the draw, as long as the draw lies below one.
pub proof fn lemma_total_internal_reflection(ref_idx: Scalar, rec: HitRecord, s: Scattering)
    requires
        !s.discriminant.spec_gt(Scalar::spec_zero()),
        s.draw.spec_lt(Scalar::spec_one()),
    ensures
        spec_scatter(Material::Dielectric { ref_idx }, rec, s) == Some(
            (Color::spec_white(), Ray { origin: rec.point, direction: s.reflected }),
        ),
{
}

} // verus!
