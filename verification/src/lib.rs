//! A small Monte-Carlo path tracer over fixed-point scalars.
//!
//! The library renders a scene of spheres by casting jittered rays from a
//! camera, following each ray through recursive bounces off diffuse,
//! specular and refractive materials, and averaging the sampled radiance
//! into a row-major image buffer. All geometry and color arithmetic is done
//! on fixed-point scalars, and every rendering step is deterministic given
//! the pseudo-random source it is handed, so a whole render is pinned down
//! by its configuration, scene and seed.
pub mod fx;
pub mod rng;
pub mod camera;
pub mod color;
pub mod hittable;
pub mod hittable_list;
pub mod sphere;
pub mod interval;
pub mod material;
pub mod ppm;
pub mod utils;
pub mod write_image_file;
pub mod ray;
pub mod vec3;

use vstd::prelude::*;

verus! {

} // verus!
