//! A Monte Carlo path tracer over a verified fixed-point scalar.
//!
//! The numeric heart of the renderer — ray/sphere intersection, nearest-hit
//! scene queries, material scattering, and the camera's stochastic sampling
//! and integration loop — is implemented over a saturating fixed-point
//! scalar (`fixed::Real`) so that every arithmetic step has an exact
//! mathematical specification. Scene construction, image-file output and
//! progress reporting are external collaborators and live outside this
//! library.

pub mod camera;
pub mod color;
pub mod fixed;
pub mod hittable;
pub mod hittable_list;
pub mod interval;
pub mod material;
pub mod ray;
pub mod rng;
pub mod sphere;
pub mod vec3;
