//! Simulation core of a top-down tank shooter.
//!
//! World positions, velocities and viewport coordinates are held in
//! milli-units (one thousandth of a world unit) as integers, so that the
//! per-tick arithmetic is exact and can be verified. Rendering, input
//! polling, windowing and the physics broad-phase belong to the host; they
//! exchange plain values with this library.

pub mod collision;
pub mod entities;
pub mod geom;
pub mod grid;
pub mod input;
pub mod isqrt;
pub mod movement;
pub mod rng;
pub mod world;
