//! A small arena simulation: entities with spatial components, a fixed
//! pipeline of per-frame systems, and a pool of reusable bullets.
//!
//! All spatial quantities are fixed-point integers: one pixel is
//! [`geometry::PIXEL`] length units, velocities are length units per
//! microsecond, and frame durations are microseconds.

pub mod geometry;
pub mod components;
pub mod resources;
pub mod world;
pub mod systems;
pub mod game;
pub mod laws;
