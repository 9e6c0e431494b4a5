//! A Monte Carlo path tracer over spheres, in verified fixed-point arithmetic.
//!
//! Rays leave a thin-lens camera, meet the nearest sphere of the scene, and
//! scatter off diffuse, reflective or transmissive materials until they are
//! absorbed, leave the scene for the sky gradient, or run out of depth. Every
//! scalar is a fixed-point integer (`fixed`), so each step of the pipeline has
//! an exact contract.
pub mod fixed;
pub mod vector;
pub mod ray;
pub mod color;
pub mod random;
pub mod material;
pub mod hit;
pub mod sphere;
pub mod camera;
pub mod scene;
pub mod renderer;
