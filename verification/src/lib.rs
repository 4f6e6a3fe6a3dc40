//! The decision core of a path tracer.
//!
//! Every number the tracer handles is a binary64 value, carried here as its
//! bit pattern in a [`scalar::Scalar`]. The library never does arithmetic on
//! such a value: it compares them, flips their sign and moves them around.
//! What it decides with them is what makes a renderer right or wrong in ways
//! that are hard to see in a picture: which root of an intersection equation
//! counts, which of many surfaces is nearest, how a normal is oriented, when
//! a material absorbs a ray, and when a light path ends.
//!
//! A caller computes, for one ray, the places where the ray meets the carrier
//! surface of each primitive, and hands them over as *crossings*; the library
//! answers with the hit.

pub mod scalar;
pub mod vec3;
pub mod color;
pub mod ray;
pub mod material;
pub mod hit;
pub mod nearest;
pub mod sphere;
pub mod rect;
pub mod cylinder;
pub mod cube;
pub mod integrator;
pub mod sampling;
