//! A verified flocking ("boids") simulation core.
//!
//! Agents move in a bounded, periodic 3D volume under the classic
//! separation / alignment / cohesion rules. All coordinates are
//! fixed-point: an `i64` holds a world value scaled by `UNIT`, so the
//! whole per-step update is exact integer arithmetic with proved
//! bounds, and every step keeps each agent inside the simulation
//! domain with its speed capped.

pub mod bird;
pub mod domain;
pub mod engine;
pub mod math;
pub mod params;
pub mod store;
pub mod vec3;
