//! Core simulation logic of a small top-down arcade shooter, decoupled from
//! any game engine: a spatial index over target positions for circular
//! proximity queries, a damage resolver for projectile hits, a wave spawner
//! with a population cap, and the small per-tick state transitions around
//! them.
//!
//! Positions and health are modeled on an integer grid, so every distance
//! comparison is exact: a point is within radius `r` of a center iff the
//! squared Euclidean distance is at most `r * r`.
pub mod animation;
pub mod collision;
pub mod constants;
pub mod enemy;
pub mod geom;
pub mod player;
pub mod rng;
pub mod state;
pub mod weapon;
pub mod world;
