//! Typed records of detected encounters, queued by detection and consumed
//! by the lifecycle handlers.

use vstd::prelude::*;

verus! {

/// An enemy was found within contact reach of the player.
#[derive(Clone, Copy, Debug, PartialEq, Eq, Structural)]
pub struct PlayerEnemyCollisionEvent {
    /// The enemy that touched the player.
    pub enemy: u64,
}

/// An enemy was found within contact reach of the castle.
#[derive(Clone, Copy, Debug, PartialEq, Eq, Structural)]
pub struct CastleEnemyCollisionEvent {
    /// The enemy that touched the castle.
    pub enemy: u64,
}

/// The player picked up a gold item, which no longer exists.
#[derive(Clone, Copy, Debug, PartialEq, Eq, Structural)]
pub struct PlayerGoldCollisionEvent {
    /// The item that was picked up.
    pub gold: u64,
    /// What the item is worth.
    pub value: u64,
}

} // verus!
