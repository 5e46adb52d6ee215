//! Verified core of a collaborative 3D voxel canvas service.
//!
//! Many concurrent clients paint single-voxel cells into a bounded grid,
//! see each other's edits live, and are rate-limited per user. This crate
//! holds the engine: the canvas grid, the paint-validation gate (bounds,
//! cooldown, adjacency), the broadcast hub that fans paint events out to
//! viewer sinks, the write-behind persistence planner, the compressed
//! binary container codec, and the registry of places. Network and
//! database plumbing live outside the crate and hand plain values in.

pub mod canvas;
pub mod clock;
pub mod codec;
pub mod comment;
pub mod cooldown;
pub mod errors;
pub mod gate;
pub mod hub;
pub mod palette;
pub mod persist;
pub mod place;
pub mod post;
pub mod registry;
pub mod user;
