//! Error taxonomy of the canvas engine.
//!
//! Validation errors (`InvalidCoordinate`, `CooldownActive`, `NoAdjacency`,
//! `PlaceNotFound`) are returned to the caller as the paint result.
//! `CorruptFormat` marks an undecodable stored canvas, fatal for that one
//! canvas only. `PersistenceFailure` marks a failed flush; the paint that
//! produced the data has already succeeded. `RegistryLockFailure` signals
//! an unrecoverable shared structure and is raised only by the hosting
//! process, never by this crate.

use vstd::prelude::*;

verus! {

#[derive(Clone, Copy, Debug, PartialEq, Eq, Structural)]
pub enum VoxError {
    /// A coordinate lies outside the canvas dimensions.
    InvalidCoordinate,
    /// The user must wait; the payload is the remaining time in seconds.
    CooldownActive(i64),
    /// The target cell is empty, off the floor, and touches no painted cell.
    NoAdjacency,
    /// No online place carries the requested id.
    PlaceNotFound,
    /// A stored canvas or container failed to decode.
    CorruptFormat,
    /// A flush could not be prepared or written.
    PersistenceFailure,
    /// A shared structure of the hosting process is unrecoverable.
    RegistryLockFailure,
}

impl VoxError {
    /// The plain-text reason reported to the painting user.
    pub fn message(&self) -> (r: &'static str)
        ensures
            self is InvalidCoordinate ==> r@ == "Out of bounds"@,
            self is CooldownActive ==> r@ == "Cooldown not finished"@,
            self is NoAdjacency ==> r@ == "Voxel has no neighbors"@,
            self is PlaceNotFound ==> r@ == "Invalid place"@,
            self is CorruptFormat ==> r@ == "Corrupt canvas data"@,
            self is PersistenceFailure ==> r@ == "Failed to persist canvas data"@,
            self is RegistryLockFailure ==> r@ == "Failed to read app state"@,
    {
        match self {
            VoxError::InvalidCoordinate => "Out of bounds",
            VoxError::CooldownActive(_) => "Cooldown not finished",
            VoxError::NoAdjacency => "Voxel has no neighbors",
            VoxError::PlaceNotFound => "Invalid place",
            VoxError::CorruptFormat => "Corrupt canvas data",
            VoxError::PersistenceFailure => "Failed to persist canvas data",
            VoxError::RegistryLockFailure => "Failed to read app state",
        }
    }
}

} // verus!
