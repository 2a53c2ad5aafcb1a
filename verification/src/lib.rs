//! Encounter-resolution core of a top-down survival arena.
//!
//! A player defends a castle against waves of enemies and collects the gold
//! that fallen enemies leave behind. This library holds the rules of that
//! game, and nothing of its presentation: which actors are within reach of
//! each other, what an encounter does to them, how the dead turn into loot,
//! and how the population is kept up.
//!
//! Positions are points of an integer grid, health and damage are whole
//! numbers, and every rule is stated as a contract and proved.

pub mod actors;
pub mod bullets;
pub mod collision;
pub mod config;
pub mod constants;
pub mod contacts;
pub mod events;
pub mod geometry;
pub mod identity;
pub mod index;
pub mod lifecycle;
pub mod pickup;
pub mod population;
pub mod state;
pub mod steering;
pub mod world;
