//! A verified core for a 2D flocking ("boids") simulation.
//!
//! Agents live in a bounded plane and steer by three local rules —
//! separation, alignment and cohesion — restricted to neighbors inside a
//! visibility range and a field-of-view cone, with an optional pointer
//! chase/flee force and color diffusion across the flock.
//!
//! All geometry is carried in fixed-point integer coordinates (milli-units,
//! see [`vec2`]), so every stage of the per-tick pipeline — the spatial
//! index, the steering evaluator, the batch dispatcher and the two
//! integrators — is verified: contracts pin each result down exactly, and
//! the speed-bound, range, field-of-view, partition, isolation and
//! chunk-invariance laws are proved, not tested.

pub mod boid;
pub mod color;
pub mod index;
pub mod math;
pub mod params;
mod rng;
pub mod spawn;
pub mod speed;
pub mod steer;
pub mod systems;
pub mod vec2;
