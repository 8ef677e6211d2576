//! A Monte Carlo path tracer, verified over the arithmetic it is given.
//!
//! The crate renders a scene of spheres to an image file: a camera sends
//! rays through the pixels, a bounding-volume hierarchy finds what each ray
//! meets first, a material sends the ray on or absorbs it, and what the
//! ray brings back from the sky is averaged into the pixel.
//!
//! The numbers are a type parameter, [`scalar::Scalar`], and so is the
//! source of random scalars, [`random::RandomSource`]. Every function is
//! proved against a description that is stated over the operations of the
//! scalar type and over the tape of random numbers drawn, so that the
//! image is a function of the configuration, the scene and the tape. The
//! module [`hittable::laws`] proves that the hierarchy finds what a search
//! of the plain list finds.

pub mod aabb;
pub mod camera;
pub mod color;
pub mod hittable;
pub mod interval;
pub mod material;
pub mod random;
pub mod ray;
pub mod scalar;
pub mod scenes;
pub mod texture;
pub mod utility;
pub mod vec3;
