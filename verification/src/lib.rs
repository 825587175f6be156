//! A progressively-refining path tracer core: the synchronization protocol
//! between the render worker and the display loop, and the physically-based
//! scattering model the worker invokes per bounce.
//!
//! Real-valued quantities (colors, directions, angles) are carried as
//! fixed-point integers: a value `v` stands for the real number `v / SCALE`.

use vstd::prelude::*;

pub mod fixed;
pub mod materials;
pub mod ray;
pub mod render;
pub mod rng;
pub mod vec3;

verus! {

pub use fixed::SCALE;
pub use materials::Material;
pub use ray::{Hit, Ray};
pub use vec3::Vec3;

} // verus!

