//! A small Monte-Carlo ray tracer with verified numerics.
//!
//! A scene of spheres with diffuse, metallic and dielectric materials is
//! sampled by a camera that shoots jittered rays and evaluates light
//! transport recursively; the result is a buffer of gamma-corrected display
//! pixels.  All arithmetic runs on `scalar::Scalar`, a fixed-point number
//! line extended with the signed zeros, infinities and not-a-number value
//! of hardware floating point, so that every geometric and radiometric
//! step carries an exact contract.

pub mod camera;
pub mod color;
pub mod dielectric;
pub mod hittable;
pub mod hittable_list;
pub mod lambertian;
pub mod material;
pub mod metal;
pub mod ray;
pub mod scalar;
pub mod sphere;
pub mod vec3;

mod rng;
