//! Default values of the tunable quantities.
//!
//! Lengths are given in grid steps, `GRID_SCALE` of which make one world
//! unit; health and damage are whole hit points; intervals are milliseconds.

use vstd::prelude::*;

verus! {

/// Grid steps per world unit.
pub const GRID_SCALE: u32 = 1_000;

// Player
pub const PLAYER_SPEED: u32 = 4_000;
pub const PLAYER_HEALTH: i64 = 100;

// Enemy
pub const MAX_NUM_ENEMIES: usize = 20;
pub const SPAWN_RATE_PER_SECOND: usize = 2;
pub const ENEMY_SPAWN_INTERVAL_MILLIS: u32 = 1_000;
pub const ENEMY_SPEED: u32 = 1_500;
pub const ENEMY_HEALTH: i64 = 10;
pub const ENEMY_DAMAGE: u32 = 1;
pub const SPAWN_DISTANCE_MIN: u32 = 1_000_000;
pub const SPAWN_DISTANCE_MAX: u32 = 5_000_000;

// Spatial index
pub const KD_TREE_REFRESH_MILLIS: u32 = 100;

// Gun
pub const BULLET_SPEED: u32 = 20_000;
pub const BULLET_DAMAGE: u32 = 15;

// Interaction radii
pub const BULLET_ENEMY_RADIUS: u32 = 25_000;
pub const PLAYER_ENEMY_RADIUS: u32 = 40_000;
pub const PLAYER_GOLD_RADIUS: u32 = 60_000;
pub const CASTLE_ENEMY_RADIUS: u32 = 40_000;

// Gold
pub const GOLD_VALUE: u64 = 1;

// Castle
pub const CASTLE_HEALTH: i64 = 1_000;

} // verus!
