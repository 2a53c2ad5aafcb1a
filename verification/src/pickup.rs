//! Gold pickup: the player collects the gold found within reach. An item
//! is removed the moment it is found, so no item is ever collected twice.

use vstd::prelude::*;
use crate::actors::Gold;
use crate::events::PlayerGoldCollisionEvent;
use crate::identity::{find, first_at, lemma_position_found, lemma_remove_keeps_order, position, tags};
use crate::index::IndexedPoint;
use crate::lifecycle::total_value;
use crate::state::WorldState;
use crate::world::World;

verus! {

impl WorldState {
    /// This state after the gold item called `id`, if it lies on the ground,
    /// was picked up: the item is gone and a pickup event is queued.
    pub open spec fn with_pickup(self, id: u64) -> WorldState {
        match position(tags(self.gold), id) {
            Some(i) => WorldState {
                gold: self.gold.remove(i),
                pickups: self.pickups.push(
                    PlayerGoldCollisionEvent { gold: id, value: self.gold[i].value },
                ),
                ..self
            },
            None => self,
        }
    }

    /// This state after each of the matches `found` was picked up in turn.
    pub open spec fn with_pickups(self, found: Seq<IndexedPoint>) -> WorldState
        decreases found.len(),
    {
        if found.len() == 0 {
            self
        } else {
            self.with_pickups(found.drop_last()).with_pickup(found.last().id)
        }
    }
}

impl World {
    /// Queries the gold index around the player and picks up every match
    /// that still lies on the ground: the item is removed at once and one
    /// pickup event is queued for it. A match whose item is already gone is
    /// passed over, so no item is ever picked up twice. Without a player
    /// nothing happens.
    ///
    /// Returns the matches, in the order in which they were tried.
    pub fn handle_gold_player_collision(&mut self) -> (found: Vec<IndexedPoint>)
        ensures
            old(self).wf() ==> final(self).wf(),
            WorldState::matches_around(
                old(self)@.gold_index,
                old(self)@.player_pos(),
                old(self)@.config.player_gold_radius,
                found@,
            ),
            final(self)@ == old(self)@.with_pickups(found@),
    {
        let ghost start = self@;
        let player = match self.player {
            Some(p) => p,
            None => {
                return Vec::new();
            },
        };
        let found: Vec<IndexedPoint> = self.gold_index.query_radius(
            player.pos,
            self.config.player_gold_radius,
        );
        let mut i: usize = 0;
        while i < found.len()
            invariant
                i <= found.len(),
                start.wf() ==> self.wf(),
                self@ == start.with_pickups(found@.take(i as int)),
            decreases found.len() - i,
        {
            let id: u64 = found[i].id;
            proof {
                assert(found@.take(i + 1).drop_last() =~= found@.take(i as int));
            }
            match find(&self.gold, id) {
                Some(j) => {
                    let item = self.gold[j];
                    proof {
                        if self.wf() {
                            lemma_remove_keeps_order(self.gold@, j as int, self.next_id);
                        }
                    }
                    self.gold.remove(j);
                    self.pickups.push(PlayerGoldCollisionEvent { gold: id, value: item.value });
                },
                None => {},
            }
            i += 1;
        }
        proof {
            assert(found@.take(i as int) =~= found@);
        }
        found
    }
}

/// Picking up gold changes nothing but the gold on the ground and the queue
/// of pickups.
pub proof fn lemma_pickups_frame(state: WorldState, found: Seq<IndexedPoint>)
    ensures
        state.with_pickups(found) == (WorldState {
            gold: state.with_pickups(found).gold,
            pickups: state.with_pickups(found).pickups,
            ..state
        }),
    decreases found.len(),
{
    if found.len() > 0 {
        lemma_pickups_frame(state, found.drop_last());
    }
}

/// The identities that a list of matches names, in order.
pub open spec fn names(found: Seq<IndexedPoint>) -> Seq<u64> {
    found.map_values(|p: IndexedPoint| p.id)
}

/// The pickups of the gold item called `id`.
pub open spec fn pickups_of(pickups: Seq<PlayerGoldCollisionEvent>, id: u64) -> Seq<
    PlayerGoldCollisionEvent,
> {
    pickups.filter(|e: PlayerGoldCollisionEvent| e.gold == id)
}

/// Picking up one item keeps the state well formed, removes that item and
/// no other, and queues one pickup for it if it was there and none if not.
pub proof fn lemma_pickup_once(state: WorldState, id: u64, other: u64)
    requires
        state.wf(),
    ensures
        state.with_pickup(id).wf(),
        !state.with_pickup(id).has_gold(id),
        other != id ==> state.with_pickup(id).has_gold(other) == state.has_gold(other),
        pickups_of(state.with_pickup(id).pickups, id).len() == pickups_of(state.pickups, id).len()
            + if state.has_gold(id) { 1int } else { 0int },
        other != id ==> pickups_of(state.with_pickup(id).pickups, other) == pickups_of(
            state.pickups,
            other,
        ),
{
    reveal(Seq::filter);
    let after = state.with_pickup(id);
    match position(tags(state.gold), id) {
        Some(i) => {
            lemma_remove_keeps_order(state.gold, i, state.next_id);
            assert(after.pickups.drop_last() =~= state.pickups);
            if other != id && state.has_gold(other) {
                // Another item only moves up by one place, if at all.
                let w = choose|w: int|
                    0 <= w < tags(state.gold).len() && tags(state.gold)[w] == other;
                if w < i {
                    assert(tags(after.gold)[w] == other);
                } else {
                    assert(tags(after.gold)[w - 1] == other);
                }
            }
            if other != id && after.has_gold(other) {
                let w = choose|w: int|
                    0 <= w < tags(after.gold).len() && tags(after.gold)[w] == other;
                assert(tags(state.gold).contains(tags(after.gold)[w]));
            }
        },
        None => {
            if state.has_gold(id) {
                // An identity that occurs has a first place, so it has a
                // position after all.
                let w = choose|w: int| 0 <= w < tags(state.gold).len() && tags(state.gold)[w] == id;
                let first = choose_first(tags(state.gold), id, w);
                lemma_position_found(tags(state.gold), id, first);
            }
        },
    }
}

/// The first place at or before `w` at which `ids` holds `id`.
pub proof fn choose_first(ids: Seq<u64>, id: u64, w: int) -> (first: int)
    requires
        0 <= w < ids.len(),
        ids[w] == id,
    ensures
        first_at(ids, id, first),
    decreases w,
{
    if exists|j: int| 0 <= j < w && ids[j] == id {
        let j = choose|j: int| 0 <= j < w && ids[j] == id;
        choose_first(ids, id, j)
    } else {
        w
    }
}

/// Gold is picked up exactly once. After the matches `found` were picked up
/// in turn, however often they name an item, each item that lay on the
/// ground and was named is gone and has exactly one new pickup queued for
/// it; every other item lies where it lay and has none.
pub proof fn lemma_pickup_exactly_once(state: WorldState, found: Seq<IndexedPoint>, id: u64)
    requires
        state.wf(),
    ensures
        state.with_pickups(found).wf(),
        state.with_pickups(found).has_gold(id) == (state.has_gold(id) && !names(found).contains(
            id,
        )),
        pickups_of(state.with_pickups(found).pickups, id).len() == pickups_of(
            state.pickups,
            id,
        ).len() + if state.has_gold(id) && names(found).contains(id) {
            1int
        } else {
            0int
        },
    decreases found.len(),
{
    if found.len() > 0 {
        let rest = found.drop_last();
        let last = found.last().id;
        lemma_pickup_exactly_once(state, rest, id);
        let before = state.with_pickups(rest);
        lemma_pickup_once(before, last, id);
        // An identity is named by `found` exactly if it is named by `rest`
        // or is the last one.
        assert(names(found) =~= names(rest).push(last));
        if names(rest).contains(id) {
            let w = choose|w: int| 0 <= w < names(rest).len() && names(rest)[w] == id;
            assert(names(found)[w] == id);
        }
        if last == id {
            assert(names(found)[found.len() - 1] == id);
        }
        if names(found).contains(id) && last != id {
            let w = choose|w: int| 0 <= w < names(found).len() && names(found)[w] == id;
            assert(names(rest)[w] == id);
        }
    }
}

/// Asking again finds nothing new: once the matches `found` were picked
/// up, picking the same matches up again changes nothing.
pub proof fn lemma_second_pickup_finds_nothing(state: WorldState, found: Seq<IndexedPoint>, again: int)
    requires
        state.wf(),
        0 <= again <= found.len(),
    ensures
        state.with_pickups(found).with_pickups(found.take(again)) == state.with_pickups(found),
    decreases again,
{
    let after = state.with_pickups(found);
    if again > 0 {
        let id = found[again - 1].id;
        lemma_second_pickup_finds_nothing(state, found, again - 1);
        assert(found.take(again).drop_last() =~= found.take(again - 1));
        lemma_pickup_exactly_once(state, found, id);
        assert(names(found)[again - 1] == id);
        if position(tags(after.gold), id) is Some {
            let i = position(tags(after.gold), id)->0;
            assert(tags(after.gold).contains(tags(after.gold)[i]));
        }
    }
}

/// What the gold on the ground is worth in all.
pub open spec fn gold_worth(gold: Seq<Gold>) -> int
    decreases gold.len(),
{
    if gold.len() == 0 {
        0
    } else {
        gold_worth(gold.drop_last()) + gold.last().value
    }
}

/// Taking one item away lowers the worth of the gold by the value of that
/// item.
pub proof fn lemma_worth_without(gold: Seq<Gold>, i: int)
    requires
        0 <= i < gold.len(),
    ensures
        gold_worth(gold.remove(i)) == gold_worth(gold) - gold[i].value,
    decreases gold.len(),
{
    if i < gold.len() - 1 {
        lemma_worth_without(gold.drop_last(), i);
        assert(gold.remove(i).drop_last() =~= gold.drop_last().remove(i));
    }
}

/// Pickup neither makes nor loses value: what the gold on the ground lost
/// in worth is exactly what the queued pickups gained, so that every item
/// is credited with its own value, once.
pub proof fn lemma_pickup_conserves_value(state: WorldState, found: Seq<IndexedPoint>)
    ensures
        gold_worth(state.with_pickups(found).gold) + total_value(
            state.with_pickups(found).pickups,
        ) == gold_worth(state.gold) + total_value(state.pickups),
    decreases found.len(),
{
    if found.len() > 0 {
        lemma_pickup_conserves_value(state, found.drop_last());
        let before = state.with_pickups(found.drop_last());
        let id = found.last().id;
        match position(tags(before.gold), id) {
            Some(i) => {
                lemma_worth_without(before.gold, i);
                assert(before.with_pickup(id).pickups.drop_last() =~= before.pickups);
            },
            None => {},
        }
    }
}

} // verus!
