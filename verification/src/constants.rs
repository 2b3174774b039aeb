//! Tuning constants of the game, on the integer grid.
use vstd::prelude::*;

verus! {

/// Half-extent of the coordinate range the simulation works on. Keeping every
/// position inside `[-POS_LIMIT, POS_LIMIT]` keeps every squared-distance
/// computation inside `i64`.
pub const POS_LIMIT: i64 = 1_000_000_000;

/// Largest damage amount a configuration may carry.
pub const DAMAGE_LIMIT: i64 = 1_000_000_000;

/// Largest starting health a configuration may carry.
pub const HEALTH_LIMIT: i64 = 1_000_000_000;

/// Largest spawn-annulus radius a configuration may carry.
pub const SPAWN_DIST_LIMIT: i64 = 1_000_000;

// Spritesheet
pub const SPRITE_SHEET_WIDTH: usize = 8;
pub const SPRITE_SHEET_HEIGTH: usize = 8;

// Tiles
pub const TILE_WIDTH: usize = 16;
pub const TILE_HEIGHT: usize = 16;

// World
pub const WORLD_W: i64 = 3000;
pub const WORLD_H: i64 = 2500;
pub const NUM_WORLD_DECORATIONS: usize = 1000;

// Player
pub const PLAYER_SPEED: i64 = 2;

/// Largest projectile velocity component, per tick.
pub const PROJECTILE_VEL_LIMIT: i64 = 1_000_000;

// Projectile
pub const PROJECTILE_SPEED: i64 = 15;
pub const PROJECTILE_DAMAGE: i64 = 50;
pub const PROJECTILES_PER_SHOT: usize = 3;

// Enemy
pub const MAX_NUM_ENEMIES: usize = 500;
pub const ENEMY_SPAWN_BATCH: usize = 10;
pub const ENEMY_SPEED: i64 = 1;
pub const ENEMY_HEALTH: i64 = 100;
pub const HIT_RADIUS: i64 = 50;
pub const SPAWN_DIST_MIN: i64 = 1000;
pub const SPAWN_DIST_MAX: i64 = 5000;

} // verus!
