//! A small offline path-tracing renderer whose geometric core is verified:
//! scalars are fixed-point integers, and every intersection, bounding-volume
//! and scattering routine carries a contract describing its result exactly.

pub mod fixed;
pub mod vec3;
pub mod color;
pub mod ray;
pub mod mat4;
pub mod geometry;
pub mod trig;
pub mod shared;
pub mod texture;
pub mod material;
pub mod film;
pub mod filter;
pub mod world;
pub mod renderer;
