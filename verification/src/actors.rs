//! The actors of the arena: what each of them carries, and the rules that
//! belong to a single actor.

use rand::Rng;
use vstd::prelude::*;
use crate::geometry::Point;

verus! {

/// A health counter. The stored value may fall below zero; a holder whose
/// value is zero or less is dead, and reads of the counter never show less
/// than zero.
#[derive(Clone, Copy, Debug, PartialEq, Eq, Structural)]
pub struct Health(pub i64);

/// The health left after `hits` blows of `damage` each. The counter stops
/// falling at the smallest value it can hold.
pub open spec fn health_after(value: int, damage: int, hits: int) -> int {
    if value - damage * hits < i64::MIN {
        i64::MIN as int
    } else {
        value - damage * hits
    }
}

impl Health {
    /// The holder of this counter is dead.
    pub open spec fn dead(self) -> bool {
        self.0 <= 0
    }

    /// Decides whether the holder of this counter is dead.
    pub fn is_dead(&self) -> (dead: bool)
        ensures
            dead == self.dead(),
    {
        self.0 <= 0
    }

    /// Reads the counter, showing zero for any value below zero.
    pub fn current(&self) -> (shown: u64)
        ensures
            shown == if self.0 < 0 { 0 } else { self.0 as int },
    {
        if self.0 < 0 {
            0
        } else {
            self.0 as u64
        }
    }

    /// The counter after `hits` blows of `damage` each.
    pub fn damaged(self, damage: u32, hits: usize) -> (left: Health)
        ensures
            left.0 == health_after(self.0 as int, damage as int, hits as int),
    {
        assert(0 <= damage * hits <= 0xffff_ffff * 0xffff_ffff_ffff_ffff) by (nonlinear_arith)
            requires
                0 <= damage <= 0xffff_ffff,
                0 <= hits <= 0xffff_ffff_ffff_ffff,
        ;
        let total: u128 = (damage as u128) * (hits as u128);
        let room: u128 = (self.0 as i128 - i64::MIN as i128) as u128;
        if total > room {
            Health(i64::MIN)
        } else {
            Health((self.0 as i128 - total as i128) as i64)
        }
    }
}

/// What an enemy steers toward.
#[derive(Clone, Copy, Debug, PartialEq, Eq, Structural)]
pub enum Behavior {
    SeeksPlayer,
    SeeksCastle,
}

/// The archetype of an enemy. It fixes both how the enemy looks and what it
/// steers toward.
#[derive(Clone, Copy, Debug, PartialEq, Eq, Structural)]
pub enum EnemyType {
    Green,
    Red,
    Skin,
}

/// Calls `rand::Rng::gen_range` on `rand::thread_rng()` with the half-open
/// range `0..bound`. The range must not be empty; whatever number comes back
/// lies in it. (The generator itself gives up if the operating system cannot
/// seed it.)
#[verifier::external_body]
fn random_below(bound: u32) -> (n: u32)
    requires
        bound > 0,
    ensures
        n < bound,
{
    rand::thread_rng().gen_range(0..bound)
}

impl EnemyType {
    /// The archetype numbered `index`: `Green` for 0, `Red` for 1, `Skin`
    /// for anything else.
    pub open spec fn of_index(index: u32) -> EnemyType {
        if index == 0 {
            EnemyType::Green
        } else if index == 1 {
            EnemyType::Red
        } else {
            EnemyType::Skin
        }
    }

    /// The archetype numbered `index`: `Green` for 0, `Red` for 1, `Skin`
    /// for anything else.
    pub fn from_index(index: u32) -> (kind: EnemyType)
        ensures
            kind == EnemyType::of_index(index),
    {
        match index {
            0 => EnemyType::Green,
            1 => EnemyType::Red,
            _ => EnemyType::Skin,
        }
    }

    /// Draws an archetype at random, each of the three with the same chance.
    pub fn get_rand_enemy() -> EnemyType {
        let index: u32 = random_below(3);
        EnemyType::from_index(index)
    }

    /// Where this archetype's frames start on the sprite sheet.
    pub open spec fn base_sprite_index(self) -> usize {
        match self {
            EnemyType::Green => 8,
            EnemyType::Red => 12,
            EnemyType::Skin => 20,
        }
    }

    /// Where this archetype's frames start on the sprite sheet.
    pub fn get_base_sprite_index(&self) -> (index: usize)
        ensures
            index == self.base_sprite_index(),
    {
        match self {
            EnemyType::Green => 8,
            EnemyType::Red => 12,
            EnemyType::Skin => 20,
        }
    }

    /// What this archetype steers toward: green enemies hunt the player,
    /// all others march on the castle.
    pub open spec fn seeks(self) -> Behavior {
        match self {
            EnemyType::Green => Behavior::SeeksPlayer,
            _ => Behavior::SeeksCastle,
        }
    }

    /// What this archetype steers toward.
    pub fn behavior(&self) -> (behavior: Behavior)
        ensures
            behavior == self.seeks(),
    {
        match self {
            EnemyType::Green => Behavior::SeeksPlayer,
            _ => Behavior::SeeksCastle,
        }
    }
}

/// An enemy.
#[derive(Clone, Copy, Debug, PartialEq, Eq, Structural)]
pub struct Enemy {
    pub id: u64,
    pub pos: Point,
    pub health: Health,
    pub kind: EnemyType,
}

/// A bullet in flight.
#[derive(Clone, Copy, Debug, PartialEq, Eq, Structural)]
pub struct Bullet {
    pub id: u64,
    pub pos: Point,
    /// The direction of flight; its length does not matter.
    pub dir: Point,
    /// The damage dealt to the enemy this bullet hits.
    pub damage: u32,
}

/// A gold item lying on the ground.
#[derive(Clone, Copy, Debug, PartialEq, Eq, Structural)]
pub struct Gold {
    pub id: u64,
    pub pos: Point,
    pub value: u64,
}

/// The player.
#[derive(Clone, Copy, Debug, PartialEq, Eq, Structural)]
pub struct Player {
    pub pos: Point,
    pub health: Health,
    /// The currency ledger: everything the player has collected so far.
    pub gold: u64,
}

/// The castle.
#[derive(Clone, Copy, Debug, PartialEq, Eq, Structural)]
pub struct Castle {
    pub pos: Point,
    pub health: Health,
}

} // verus!
