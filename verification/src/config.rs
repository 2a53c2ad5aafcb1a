//! The tunable quantities of a simulation, gathered in one value.

use vstd::prelude::*;
use crate::constants::{
    BULLET_DAMAGE, BULLET_ENEMY_RADIUS, BULLET_SPEED, CASTLE_ENEMY_RADIUS, CASTLE_HEALTH,
    ENEMY_DAMAGE, ENEMY_HEALTH, ENEMY_SPEED, GOLD_VALUE, MAX_NUM_ENEMIES, PLAYER_ENEMY_RADIUS,
    PLAYER_GOLD_RADIUS, PLAYER_HEALTH, PLAYER_SPEED, SPAWN_RATE_PER_SECOND,
};

verus! {

/// Everything about a simulation that is chosen rather than computed.
/// Every combination of values is a valid configuration.
#[derive(Clone, Copy, Debug, PartialEq, Eq, Structural)]
pub struct Config {
    /// Most enemies that may be alive at once.
    pub max_enemies: usize,
    /// Most enemies created by one spawn tick.
    pub spawn_batch: usize,
    /// Length of one enemy step, in grid steps.
    pub enemy_speed: u32,
    /// Length of one player step, in grid steps.
    pub player_speed: u32,
    /// Length of one bullet step, in grid steps.
    pub bullet_speed: u32,
    /// Health of a newly spawned enemy.
    pub enemy_health: i64,
    /// Health of a newly spawned player.
    pub player_health: i64,
    /// Health of a newly spawned castle.
    pub castle_health: i64,
    /// Damage dealt by one contact between an enemy and the player or the
    /// castle.
    pub enemy_damage: u32,
    /// Damage carried by a newly fired bullet.
    pub bullet_damage: u32,
    /// Reach within which a bullet hits an enemy.
    pub bullet_radius: u32,
    /// Reach within which an enemy touches the player.
    pub player_enemy_radius: u32,
    /// Reach within which the player picks up gold.
    pub player_gold_radius: u32,
    /// Reach within which an enemy touches the castle.
    pub castle_enemy_radius: u32,
    /// Value of one gold item.
    pub gold_value: u64,
}

impl Config {
    /// The configuration made of the default constants.
    pub open spec fn standard() -> Config {
        Config {
            max_enemies: MAX_NUM_ENEMIES,
            spawn_batch: SPAWN_RATE_PER_SECOND,
            enemy_speed: ENEMY_SPEED,
            player_speed: PLAYER_SPEED,
            bullet_speed: BULLET_SPEED,
            enemy_health: ENEMY_HEALTH,
            player_health: PLAYER_HEALTH,
            castle_health: CASTLE_HEALTH,
            enemy_damage: ENEMY_DAMAGE,
            bullet_damage: BULLET_DAMAGE,
            bullet_radius: BULLET_ENEMY_RADIUS,
            player_enemy_radius: PLAYER_ENEMY_RADIUS,
            player_gold_radius: PLAYER_GOLD_RADIUS,
            castle_enemy_radius: CASTLE_ENEMY_RADIUS,
            gold_value: GOLD_VALUE,
        }
    }
}

impl Default for Config {
    fn default() -> (config: Config)
        ensures
            config == Config::standard(),
    {
        Config {
            max_enemies: MAX_NUM_ENEMIES,
            spawn_batch: SPAWN_RATE_PER_SECOND,
            enemy_speed: ENEMY_SPEED,
            player_speed: PLAYER_SPEED,
            bullet_speed: BULLET_SPEED,
            enemy_health: ENEMY_HEALTH,
            player_health: PLAYER_HEALTH,
            castle_health: CASTLE_HEALTH,
            enemy_damage: ENEMY_DAMAGE,
            bullet_damage: BULLET_DAMAGE,
            bullet_radius: BULLET_ENEMY_RADIUS,
            player_enemy_radius: PLAYER_ENEMY_RADIUS,
            player_gold_radius: PLAYER_GOLD_RADIUS,
            castle_enemy_radius: CASTLE_ENEMY_RADIUS,
            gold_value: GOLD_VALUE,
        }
    }
}

} // verus!
