//! The resolution engine: rebuilding the spatial indexes and running the
//! detection steps of a tick in their fixed order.
//!
//! Detection reads the indexes, which are snapshots and may lag behind the
//! actors. A match is therefore only a candidate until the actor it names
//! is found to exist still.

use vstd::prelude::*;
use vstd::multiset::Multiset;
use crate::actors::Enemy;
use crate::geometry::Point;
use crate::identity::Tagged;
use crate::index::{radius_matches, IndexedPoint, SpatialIndex};
use crate::pickup::lemma_pickups_frame;
use crate::state::WorldState;
use crate::world::World;

verus! {

/// The tagged positions of `items`, in order: what an index of them is
/// built from.
pub open spec fn snapshot<T: Tagged>(items: Seq<T>) -> Seq<IndexedPoint> {
    items.map_values(|t: T| IndexedPoint { pos: t.spot(), id: t.tag() })
}

/// Collects the tagged positions of `items`.
pub fn snapshot_of<T: Tagged>(items: &Vec<T>) -> (points: Vec<IndexedPoint>)
    ensures
        points@ == snapshot(items@),
{
    let mut points: Vec<IndexedPoint> = Vec::new();
    let mut i: usize = 0;
    while i < items.len()
        invariant
            i <= items.len(),
            points@ == snapshot(items@.take(i as int)),
        decreases items.len() - i,
    {
        let point = IndexedPoint { pos: items[i].place(), id: items[i].id() };
        points.push(point);
        i += 1;
    }
    points
}

/// A freshly built enemy index holds exactly the living enemies, each where
/// it stands.
pub proof fn lemma_fresh_index_holds_the_living(enemies: Seq<Enemy>, p: IndexedPoint)
    ensures
        snapshot(enemies).to_multiset().count(p) > 0 <==> exists|j: int|
            0 <= j < enemies.len() && p == (IndexedPoint {
                pos: (#[trigger] enemies[j]).pos,
                id: enemies[j].id,
            }),
{
    broadcast use vstd::seq_lib::group_to_multiset_ensures;

    let points = snapshot(enemies);
    if points.to_multiset().count(p) > 0 {
        let j = choose|j: int| 0 <= j < points.len() && points[j] == p;
        assert(p == (IndexedPoint { pos: enemies[j].pos, id: enemies[j].id }));
    }
    if exists|j: int|
        0 <= j < enemies.len() && p == (IndexedPoint {
            pos: (#[trigger] enemies[j]).pos,
            id: enemies[j].id,
        }) {
        let j = choose|j: int|
            0 <= j < enemies.len() && p == (IndexedPoint {
                pos: (#[trigger] enemies[j]).pos,
                id: enemies[j].id,
            });
        assert(points[j] == p);
    }
}

impl WorldState {
    /// This state with the enemy index rebuilt from the enemies as they
    /// stand.
    pub open spec fn with_enemy_index_rebuilt(self) -> WorldState {
        WorldState { enemy_index: snapshot(self.enemies).to_multiset(), ..self }
    }

    /// This state with the gold index rebuilt from the gold as it lies.
    pub open spec fn with_gold_index_rebuilt(self) -> WorldState {
        WorldState { gold_index: snapshot(self.gold).to_multiset(), ..self }
    }

    /// This state with both indexes rebuilt.
    pub open spec fn with_indexes_rebuilt(self) -> WorldState {
        self.with_enemy_index_rebuilt().with_gold_index_rebuilt()
    }

    /// Where the player stands, if there is a player.
    pub open spec fn player_pos(self) -> Option<Point> {
        match self.player {
            Some(p) => Some(p.pos),
            None => None,
        }
    }

    /// Where the castle stands, if there is a castle.
    pub open spec fn castle_pos(self) -> Option<Point> {
        match self.castle {
            Some(c) => Some(c.pos),
            None => None,
        }
    }

    /// The matches `found` are what the index `points` holds within `radius`
    /// of the actor `center`; without that actor there are no matches.
    pub open spec fn matches_around(
        points: Multiset<IndexedPoint>,
        center: Option<Point>,
        radius: u32,
        found: Seq<IndexedPoint>,
    ) -> bool {
        match center {
            Some(pos) => found.to_multiset() == radius_matches(points, pos, radius as int),
            None => found.len() == 0,
        }
    }

    /// What a resolution tick reports is in order: measured against the
    /// freshly rebuilt indexes, every bullet's outcome is justified, and the
    /// three lists of matches are what the indexes hold within reach of the
    /// player and of the castle.
    pub open spec fn tick_justified(
        self,
        hits: Seq<Option<u64>>,
        player_contacts: Seq<IndexedPoint>,
        pickups: Seq<IndexedPoint>,
        castle_contacts: Seq<IndexedPoint>,
    ) -> bool {
        let fresh = self.with_indexes_rebuilt();
        &&& hits.len() == fresh.bullets.len()
        &&& forall|i: int|
            0 <= i < hits.len() ==> fresh.hit_justified(fresh.bullets[i], #[trigger] hits[i])
        &&& WorldState::matches_around(
            fresh.enemy_index,
            fresh.player_pos(),
            fresh.config.player_enemy_radius,
            player_contacts,
        )
        &&& WorldState::matches_around(
            fresh.gold_index,
            fresh.player_pos(),
            fresh.config.player_gold_radius,
            pickups,
        )
        &&& WorldState::matches_around(
            fresh.enemy_index,
            fresh.castle_pos(),
            fresh.config.castle_enemy_radius,
            castle_contacts,
        )
    }

    /// This state after a resolution tick that found what is given: the
    /// indexes are rebuilt, then the bullets are resolved, then the contacts
    /// with the player are queued, then gold is picked up, then the contacts
    /// with the castle are queued.
    pub open spec fn after_tick(
        self,
        hits: Seq<Option<u64>>,
        player_contacts: Seq<IndexedPoint>,
        pickups: Seq<IndexedPoint>,
        castle_contacts: Seq<IndexedPoint>,
    ) -> WorldState {
        self.with_indexes_rebuilt().with_bullets_resolved(hits).with_player_contacts(
            player_contacts,
        ).with_pickups(pickups).with_castle_contacts(castle_contacts)
    }
}

/// What one resolution tick found.
pub struct TickReport {
    /// For each bullet, in its old order, the enemy it hit, if any.
    pub hits: Vec<Option<u64>>,
    /// The enemies found within reach of the player.
    pub player_contacts: Vec<IndexedPoint>,
    /// The gold found within reach of the player.
    pub pickups: Vec<IndexedPoint>,
    /// The enemies found within reach of the castle.
    pub castle_contacts: Vec<IndexedPoint>,
}

impl World {
    /// Rebuilds the enemy index from the enemies as they stand.
    pub fn update_enemy_kd_tree(&mut self)
        ensures
            old(self).wf() ==> final(self).wf(),
            final(self)@ == old(self)@.with_enemy_index_rebuilt(),
    {
        self.enemy_index = SpatialIndex::build(snapshot_of(&self.enemies));
    }

    /// Rebuilds the gold index from the gold as it lies.
    pub fn update_gold_kd_tree(&mut self)
        ensures
            old(self).wf() ==> final(self).wf(),
            final(self)@ == old(self)@.with_gold_index_rebuilt(),
    {
        self.gold_index = SpatialIndex::build(snapshot_of(&self.gold));
    }

    /// Runs one resolution tick, in this order: rebuild both indexes from
    /// the current positions; resolve the bullets against the enemies; queue
    /// the contacts between enemies and the player; pick up the gold within
    /// the player's reach; queue the contacts between enemies and the
    /// castle. A step whose actors do not exist does nothing.
    pub fn resolution_tick(&mut self) -> (report: TickReport)
        ensures
            old(self).wf() ==> final(self).wf(),
            old(self)@.tick_justified(
                report.hits@,
                report.player_contacts@,
                report.pickups@,
                report.castle_contacts@,
            ),
            final(self)@ == old(self)@.after_tick(
                report.hits@,
                report.player_contacts@,
                report.pickups@,
                report.castle_contacts@,
            ),
    {
        self.update_enemy_kd_tree();
        self.update_gold_kd_tree();
        let hits = self.handle_enemy_bullet_collision();
        let player_contacts = self.handle_enemy_player_collision();
        let ghost before_pickups = self@;
        let pickups = self.handle_gold_player_collision();
        proof {
            lemma_pickups_frame(before_pickups, pickups@);
        }
        let castle_contacts = self.handle_enemy_castle_collision();
        TickReport { hits, player_contacts, pickups, castle_contacts }
    }
}

} // verus!
