//! A small ray tracer over fixed-point arithmetic.
//!
//! The scene holds one axis-aligned cube (flat colored or textured), one
//! ground plane, one directional light and one ambient light. Every scalar
//! quantity is an integer number of steps of `1/SCALE` of a world unit, so
//! all geometry and shading is exact integer arithmetic; intersection
//! distances are kept as exact rationals until a point has to be produced.

pub mod fixed;
pub mod rat;
pub mod vec3;
pub mod ray;
pub mod texture;
pub mod light;
pub mod cube;
pub mod camera;
pub mod raytracer;
pub mod laws;
