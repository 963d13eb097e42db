//! Simulation core of a fixed-camera shooter: an enemy formation that sweeps
//! and descends, a slot pool of projectiles, cooldown-gated player actions and
//! axis-aligned collision tests.
//!
//! Positions, extents and speeds are integers in tenths of a pixel, and times
//! are milliseconds on a monotonic clock supplied by the caller.
pub mod timed_tracker;
pub mod misc;
pub mod player;
pub mod enemies;
pub mod projectile;
pub mod game;
