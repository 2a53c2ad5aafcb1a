//! Contacts: enemies found within reach of the player or of the castle.
//! Contact is continuous, so every match queues an event on every tick.

use vstd::prelude::*;
use crate::events::{CastleEnemyCollisionEvent, PlayerEnemyCollisionEvent};
use crate::index::IndexedPoint;
use crate::state::WorldState;
use crate::world::World;

verus! {

/// The contact events that a list of matches gives rise to, in order.
pub open spec fn player_contacts_of(found: Seq<IndexedPoint>) -> Seq<PlayerEnemyCollisionEvent> {
    found.map_values(|p: IndexedPoint| PlayerEnemyCollisionEvent { enemy: p.id })
}

/// The contact events that a list of matches gives rise to, in order.
pub open spec fn castle_contacts_of(found: Seq<IndexedPoint>) -> Seq<CastleEnemyCollisionEvent> {
    found.map_values(|p: IndexedPoint| CastleEnemyCollisionEvent { enemy: p.id })
}

impl WorldState {
    /// This state with one contact event queued for each match between an
    /// enemy and the player.
    pub open spec fn with_player_contacts(self, found: Seq<IndexedPoint>) -> WorldState {
        WorldState { player_contacts: self.player_contacts + player_contacts_of(found), ..self }
    }

    /// This state with one contact event queued for each match between an
    /// enemy and the castle.
    pub open spec fn with_castle_contacts(self, found: Seq<IndexedPoint>) -> WorldState {
        WorldState { castle_contacts: self.castle_contacts + castle_contacts_of(found), ..self }
    }
}

impl World {
    /// Queries the enemy index around the player and queues one contact
    /// event for every match, whether or not the enemy it names is still
    /// alive: an enemy deals damage on every tick on which the index holds it
    /// within reach. Without a player nothing happens.
    ///
    /// Returns the matches, in the order in which their events were queued.
    pub fn handle_enemy_player_collision(&mut self) -> (found: Vec<IndexedPoint>)
        ensures
            old(self).wf() ==> final(self).wf(),
            WorldState::matches_around(
                old(self)@.enemy_index,
                old(self)@.player_pos(),
                old(self)@.config.player_enemy_radius,
                found@,
            ),
            final(self)@ == old(self)@.with_player_contacts(found@),
    {
        let ghost start = self@;
        let player = match self.player {
            Some(p) => p,
            None => {
                return Vec::new();
            },
        };
        let found: Vec<IndexedPoint> = self.enemy_index.query_radius(
            player.pos,
            self.config.player_enemy_radius,
        );
        let mut i: usize = 0;
        while i < found.len()
            invariant
                i <= found.len(),
                self@ == start.with_player_contacts(found@.take(i as int)),
            decreases found.len() - i,
        {
            let event = PlayerEnemyCollisionEvent { enemy: found[i].id };
            proof {
                assert(start.player_contacts + player_contacts_of(found@.take(i + 1)) =~= (
                    start.player_contacts + player_contacts_of(found@.take(i as int))).push(event));
            }
            self.player_contacts.push(event);
            i += 1;
        }
        proof {
            assert(found@.take(i as int) =~= found@);
        }
        found
    }

    /// Queries the enemy index around the castle and queues one contact
    /// event for every match. Without a castle nothing happens.
    ///
    /// Returns the matches, in the order in which their events were queued.
    pub fn handle_enemy_castle_collision(&mut self) -> (found: Vec<IndexedPoint>)
        ensures
            old(self).wf() ==> final(self).wf(),
            WorldState::matches_around(
                old(self)@.enemy_index,
                old(self)@.castle_pos(),
                old(self)@.config.castle_enemy_radius,
                found@,
            ),
            final(self)@ == old(self)@.with_castle_contacts(found@),
    {
        let ghost start = self@;
        let castle = match self.castle {
            Some(c) => c,
            None => {
                return Vec::new();
            },
        };
        let found: Vec<IndexedPoint> = self.enemy_index.query_radius(
            castle.pos,
            self.config.castle_enemy_radius,
        );
        let mut i: usize = 0;
        while i < found.len()
            invariant
                i <= found.len(),
                self@ == start.with_castle_contacts(found@.take(i as int)),
            decreases found.len() - i,
        {
            let event = CastleEnemyCollisionEvent { enemy: found[i].id };
            proof {
                assert(start.castle_contacts + castle_contacts_of(found@.take(i + 1)) =~= (
                    start.castle_contacts + castle_contacts_of(found@.take(i as int))).push(event));
            }
            self.castle_contacts.push(event);
            i += 1;
        }
        proof {
            assert(found@.take(i as int) =~= found@);
        }
        found
    }
}

} // verus!
