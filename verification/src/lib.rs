//! A 2D entity-placement and snapshot engine for a symmetric two-team
//! arena simulation. It keeps a spatial index of placed game objects
//! (colony hills, ants, sugar hills, raspberries, smell clouds), answers
//! "can this object be placed here without overlapping existing geometry"
//! queries, enforces an atomic mirrored-placement protocol that keeps the
//! two teams' starting positions fair, and extracts immutable per-tick
//! snapshots for recording and rendering layers.

pub mod geometry;
pub mod index;
pub mod laws;
pub mod objects;
pub mod shapes;
pub mod snapshot;
pub mod world;
