//! Shared-state reconciliation, identity deduction and terrain collision
//! for a multiplayer first-person client, on fixed-point coordinates.

pub mod geometry;
pub mod terrain;
pub mod roster;
pub mod world;
pub mod identity;
pub mod session;
pub mod locomotion;
