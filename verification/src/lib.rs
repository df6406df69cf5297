//! A small recursive, stochastic ray tracer: camera ray generation, sphere
//! intersection, material-driven scattering (diffuse, metal, dielectric),
//! and 8-bit pixel output.
//!
//! All scalar arithmetic is fixed-point with 16 fractional bits ([`fixed::Fx`]),
//! so every geometric and shading computation has an exact mathematical
//! meaning and carries a contract stated over plain integers. The only
//! unverified ingredient is the random number source in [`rtweekend`].

pub mod camera;
pub mod color;
pub mod fixed;
pub mod hittable;
pub mod hittable_list;
pub mod interval;
pub mod material;
pub mod ray;
pub mod rtweekend;
pub mod sphere;
pub mod vec3;

pub use fixed::Fx;
