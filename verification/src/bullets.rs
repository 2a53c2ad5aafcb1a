//! Bullets against enemies: which enemy a bullet hits, what the hit does,
//! and what is certain about it however ties are broken.

use vstd::prelude::*;
use crate::actors::{health_after, Bullet, Enemy, Health};
use crate::collision::{lemma_fresh_index_holds_the_living, snapshot};
use crate::geometry::within;
use crate::identity::{all_below, find, lemma_position_found, position, tags};
use crate::index::IndexedPoint;
use crate::pickup::lemma_pickups_frame;
use crate::state::WorldState;
use crate::world::World;

verus! {

/// `k` is the first place at which `candidates` names one of `ids`.
pub open spec fn target_at(candidates: Seq<IndexedPoint>, ids: Seq<u64>, k: int) -> bool {
    &&& 0 <= k < candidates.len()
    &&& ids.contains(candidates[k].id)
    &&& forall|j: int| 0 <= j < k ==> !ids.contains(#[trigger] candidates[j].id)
}

/// The first identity among `candidates` that is one of `ids`, if any.
pub open spec fn first_target(candidates: Seq<IndexedPoint>, ids: Seq<u64>) -> Option<u64> {
    if exists|k: int| target_at(candidates, ids, k) {
        Some(candidates[choose|k: int| target_at(candidates, ids, k)].id)
    } else {
        None
    }
}

/// The first candidate that names a living actor is the target.
pub proof fn lemma_first_target_found(candidates: Seq<IndexedPoint>, ids: Seq<u64>, k: int)
    requires
        target_at(candidates, ids, k),
    ensures
        first_target(candidates, ids) == Some(candidates[k].id),
{
}

/// Picks, among the candidates that a radius query returned, the enemy that
/// a bullet hits: the first candidate, in the order given, that names an
/// enemy still alive. Returns that enemy's place in `enemies`.
pub fn pick_target(candidates: &Vec<IndexedPoint>, enemies: &Vec<Enemy>) -> (target: Option<usize>)
    ensures
        match target {
            Some(j) => j < enemies.len() && first_target(candidates@, tags(enemies@)) == Some(
                enemies[j as int].id,
            ) && position(tags(enemies@), enemies[j as int].id) == Some(j as int),
            None => first_target(candidates@, tags(enemies@)) is None,
        },
        target is None ==> forall|k: int|
            0 <= k < candidates.len() ==> !tags(enemies@).contains(#[trigger] candidates[k].id),
        target matches Some(j) ==> exists|k: int|
            0 <= k < candidates.len() && #[trigger] candidates[k].id == enemies[j as int].id,
{
    let mut k: usize = 0;
    while k < candidates.len()
        invariant
            k <= candidates.len(),
            forall|j: int| 0 <= j < k ==> !tags(enemies@).contains(#[trigger] candidates[j].id),
        decreases candidates.len() - k,
    {
        match find(enemies, candidates[k].id) {
            Some(j) => {
                proof {
                    lemma_first_target_found(candidates@, tags(enemies@), k as int);
                }
                return Some(j);
            },
            None => {},
        }
        k += 1;
    }
    None
}

/// The enemy `e` after one blow of `damage`.
pub open spec fn struck(e: Enemy, damage: u32) -> Enemy {
    Enemy { health: Health(health_after(e.health.0 as int, damage as int, 1) as i64), ..e }
}

/// The enemies after the one called `id`, if it is among them, took a blow
/// of `damage`.
pub open spec fn damage_enemy(enemies: Seq<Enemy>, id: u64, damage: u32) -> Seq<Enemy> {
    match position(tags(enemies), id) {
        Some(j) => enemies.update(j, struck(enemies[j], damage)),
        None => enemies,
    }
}

/// The enemies after a run of bullets, each of which either hit the enemy
/// named beside it or hit nothing.
pub open spec fn after_hits(enemies: Seq<Enemy>, bullets: Seq<Bullet>, hits: Seq<Option<u64>>)
    -> Seq<Enemy>
    decreases hits.len(),
{
    if hits.len() == 0 {
        enemies
    } else {
        let before = after_hits(enemies, bullets.drop_last(), hits.drop_last());
        match hits.last() {
            Some(id) => damage_enemy(before, id, bullets.last().damage),
            None => before,
        }
    }
}

/// The bullets that hit nothing, in their old order.
pub open spec fn survivors(bullets: Seq<Bullet>, hits: Seq<Option<u64>>) -> Seq<Bullet>
    decreases hits.len(),
{
    if hits.len() == 0 {
        Seq::empty()
    } else {
        let before = survivors(bullets.drop_last(), hits.drop_last());
        match hits.last() {
            Some(_) => before,
            None => before.push(bullets.last()),
        }
    }
}

impl WorldState {
    /// What happened to `bullet` is in order. If it hit the enemy `id`, that
    /// enemy is alive and the enemy index holds it within the bullet's
    /// reach. If it hit nothing, then nothing that the index holds within
    /// reach is alive.
    pub open spec fn hit_justified(self, bullet: Bullet, hit: Option<u64>) -> bool {
        match hit {
            Some(id) => self.has_enemy(id) && exists|p: IndexedPoint|
                #[trigger] self.enemy_index.count(p) > 0 && p.id == id && within(
                    p.pos,
                    bullet.pos,
                    self.config.bullet_radius as int,
                ),
            None => forall|p: IndexedPoint|
                #[trigger] self.enemy_index.count(p) > 0 && within(
                    p.pos,
                    bullet.pos,
                    self.config.bullet_radius as int,
                ) ==> !self.has_enemy(p.id),
        }
    }

    /// This state after its bullets were resolved with the outcomes `hits`,
    /// one per bullet: each enemy that was hit has taken the bullet's
    /// damage, and each bullet that hit is gone.
    pub open spec fn with_bullets_resolved(self, hits: Seq<Option<u64>>) -> WorldState {
        WorldState {
            enemies: after_hits(self.enemies, self.bullets, hits),
            bullets: survivors(self.bullets, hits),
            ..self
        }
    }
}

impl World {
    /// Resolves the bullets against the enemy index, one bullet after the
    /// other. Each bullet queries the index around its own position; the
    /// first match that names a living enemy takes the bullet's damage, and
    /// the bullet is gone. A bullet never hits more than one enemy, and a
    /// bullet without a living match flies on.
    ///
    /// Returns, for each bullet in its old order, the enemy it hit, if any.
    /// Which of several living matches a bullet hits is not specified.
    pub fn handle_enemy_bullet_collision(&mut self) -> (hits: Vec<Option<u64>>)
        ensures
            old(self).wf() ==> final(self).wf(),
            hits@.len() == old(self)@.bullets.len(),
            forall|i: int|
                0 <= i < hits@.len() ==> old(self)@.hit_justified(
                    old(self)@.bullets[i],
                    #[trigger] hits@[i],
                ),
            final(self)@ == old(self)@.with_bullets_resolved(hits@),
    {
        let ghost start = self@;
        let radius: u32 = self.config.bullet_radius;
        let mut hits: Vec<Option<u64>> = Vec::new();
        let mut kept: Vec<Bullet> = Vec::new();
        let mut i: usize = 0;
        while i < self.bullets.len()
            invariant
                i <= self.bullets.len(),
                hits@.len() == i,
                radius == start.config.bullet_radius,
                self@ == (WorldState { enemies: self.enemies@, ..start }),
                tags(self.enemies@) == tags(start.enemies),
                self.enemies@ == after_hits(start.enemies, start.bullets.take(i as int), hits@),
                kept@ == survivors(start.bullets.take(i as int), hits@),
                forall|k: int|
                    0 <= k < i ==> start.hit_justified(start.bullets[k], #[trigger] hits@[k]),
            decreases self.bullets.len() - i,
        {
            let bullet: Bullet = self.bullets[i];
            let candidates: Vec<IndexedPoint> = self.enemy_index.query_radius(bullet.pos, radius);
            let target: Option<usize> = pick_target(&candidates, &self.enemies);
            let ghost hits_before = hits@;
            proof {
                broadcast use vstd::seq_lib::group_to_multiset_ensures;

                assert(start.bullets.take(i + 1).drop_last() =~= start.bullets.take(i as int));
            }
            match target {
                Some(j) => {
                    let enemy: Enemy = self.enemies[j];
                    let struck = Enemy { health: enemy.health.damaged(bullet.damage, 1), ..enemy };
                    self.enemies.set(j, struck);
                    hits.push(Some(enemy.id));
                    proof {
                        // The enemy that was hit is one that the index holds
                        // within reach.
                        let k = choose|k: int|
                            0 <= k < candidates.len() && #[trigger] candidates[k].id == enemy.id;
                        assert(candidates@.to_multiset().count(candidates[k]) > 0);
                    }
                },
                None => {
                    kept.push(bullet);
                    hits.push(None);
                    proof {
                        // Whatever the index holds within reach was among the
                        // candidates, and none of those is alive.
                        assert forall|p: IndexedPoint|
                            #[trigger] start.enemy_index.count(p) > 0 && within(
                                p.pos,
                                bullet.pos,
                                radius as int,
                            ) implies !start.has_enemy(p.id) by {
                            assert(candidates@.to_multiset().count(p) > 0);
                            let k = choose|k: int| 0 <= k < candidates.len() && candidates[k] == p;
                            assert(!tags(self.enemies@).contains(candidates[k].id));
                        }
                    }
                },
            }
            proof {
                assert(hits@.drop_last() =~= hits_before);
            }
            i += 1;
        }
        proof {
            assert(start.bullets.take(i as int) =~= start.bullets);
            if start.wf() {
                lemma_survivors_are_bullets(start.bullets, hits@, start.next_id);
            }
        }
        self.bullets = kept;
        hits
    }
}

/// The bullets that fly on are bullets that there were, in their old order:
/// their identities are still unique and still below the same bound.
pub proof fn lemma_survivors_are_bullets(bullets: Seq<Bullet>, hits: Seq<Option<u64>>, bound: u64)
    requires
        bullets.len() == hits.len(),
        tags(bullets).no_duplicates(),
        all_below(tags(bullets), bound),
    ensures
        tags(survivors(bullets, hits)).no_duplicates(),
        all_below(tags(survivors(bullets, hits)), bound),
        forall|k: int|
            0 <= k < survivors(bullets, hits).len() ==> tags(bullets).contains(
                #[trigger] tags(survivors(bullets, hits))[k],
            ),
    decreases hits.len(),
{
    if hits.len() > 0 {
        let rest = bullets.drop_last();
        let last = bullets.last();
        let before = survivors(rest, hits.drop_last());
        assert forall|w: int| 0 <= w < rest.len() implies #[trigger] tags(rest)[w] == tags(
            bullets,
        )[w] && tags(rest)[w] != last.id by {
            assert(tags(bullets)[bullets.len() - 1] == last.id);
        }
        lemma_survivors_are_bullets(rest, hits.drop_last(), bound);
        assert forall|k: int| 0 <= k < before.len() implies tags(bullets).contains(
            #[trigger] tags(before)[k],
        ) && tags(before)[k] != last.id by {
            let w = choose|w: int| 0 <= w < tags(rest).len() && tags(rest)[w] == tags(before)[k];
            assert(tags(bullets)[w] == tags(before)[k]);
        }
        if hits.last() is None {
            assert(tags(before.push(last)) =~= tags(before).push(last.id));
            assert(tags(bullets)[bullets.len() - 1] == last.id);
        }
    }
}

/// The number of bullets that hit an enemy.
pub open spec fn hit_count(hits: Seq<Option<u64>>) -> nat
    decreases hits.len(),
{
    if hits.len() == 0 {
        0
    } else {
        hit_count(hits.drop_last()) + if hits.last() is Some { 1nat } else { 0nat }
    }
}

/// Every bullet that hits is spent, and no other: the bullets that fly on
/// and the bullets that hit make up the bullets there were.
pub proof fn lemma_every_hit_spends_its_bullet(bullets: Seq<Bullet>, hits: Seq<Option<u64>>)
    requires
        bullets.len() == hits.len(),
    ensures
        survivors(bullets, hits).len() + hit_count(hits) == bullets.len(),
    decreases hits.len(),
{
    if hits.len() > 0 {
        lemma_every_hit_spends_its_bullet(bullets.drop_last(), hits.drop_last());
    }
}

/// A blow changes the health of at most one enemy and nothing else: the
/// same enemies stand in the same places with the same identities.
pub proof fn lemma_blow_keeps_enemies(enemies: Seq<Enemy>, id: u64, damage: u32)
    ensures
        damage_enemy(enemies, id, damage).len() == enemies.len(),
        tags(damage_enemy(enemies, id, damage)) == tags(enemies),
        forall|k: int|
            0 <= k < enemies.len() ==> (#[trigger] damage_enemy(enemies, id, damage)[k]).pos
                == enemies[k].pos,
        forall|k: int|
            0 <= k < enemies.len() && enemies[k].id != id ==> #[trigger] damage_enemy(
                enemies,
                id,
                damage,
            )[k] == enemies[k],
{
}

/// Resolving bullets never creates, removes or moves an enemy.
pub proof fn lemma_hits_keep_enemies(enemies: Seq<Enemy>, bullets: Seq<Bullet>, hits: Seq<Option<u64>>)
    ensures
        after_hits(enemies, bullets, hits).len() == enemies.len(),
        tags(after_hits(enemies, bullets, hits)) == tags(enemies),
    decreases hits.len(),
{
    if hits.len() > 0 {
        lemma_hits_keep_enemies(enemies, bullets.drop_last(), hits.drop_last());
    }
}

/// One bullet hits one enemy. When a single bullet is resolved against a
/// fresh index while at least one enemy stands within its reach, however
/// many do, then the bullet is gone, exactly one enemy has taken its damage,
/// that enemy stood within reach, and every other enemy is as it was.
pub proof fn lemma_one_bullet_hits_one_enemy(state: WorldState, hits: Seq<Option<u64>>, near: int)
    requires
        state.wf(),
        state.enemy_index == snapshot(state.enemies).to_multiset(),
        state.bullets.len() == 1,
        hits.len() == 1,
        state.hit_justified(state.bullets[0], hits[0]),
        0 <= near < state.enemies.len(),
        within(
            state.enemies[near].pos,
            state.bullets[0].pos,
            state.config.bullet_radius as int,
        ),
    ensures
        state.with_bullets_resolved(hits).bullets.len() == 0,
        exists|j: int|
            0 <= j < state.enemies.len() && hits[0] == Some((#[trigger] state.enemies[j]).id)
                && within(
                state.enemies[j].pos,
                state.bullets[0].pos,
                state.config.bullet_radius as int,
            ) && state.with_bullets_resolved(hits).enemies == state.enemies.update(
                j,
                struck(state.enemies[j], state.bullets[0].damage),
            ),
{
    let bullet = state.bullets[0];
    let radius = state.config.bullet_radius as int;
    reveal_with_fuel(after_hits, 2);
    reveal_with_fuel(survivors, 2);
    // The enemy within reach is alive and in the index, so the bullet cannot
    // have hit nothing.
    let standing = IndexedPoint { pos: state.enemies[near].pos, id: state.enemies[near].id };
    lemma_fresh_index_holds_the_living(state.enemies, standing);
    assert(tags(state.enemies)[near] == standing.id);
    // What it hit is in the index, hence one of the enemies, where it stands.
    let id = hits[0]->0;
    let p = choose|p: IndexedPoint|
        #[trigger] state.enemy_index.count(p) > 0 && p.id == id && within(p.pos, bullet.pos, radius);
    lemma_fresh_index_holds_the_living(state.enemies, p);
    let j = choose|j: int|
        0 <= j < state.enemies.len() && p == (IndexedPoint {
            pos: (#[trigger] state.enemies[j]).pos,
            id: state.enemies[j].id,
        });
    lemma_position_found(tags(state.enemies), id, j);
}

/// One bullet hits one enemy in a tick. When a tick starts with a single
/// bullet and at least one enemy within its reach, however many there are,
/// then after the tick the bullet is gone, exactly one enemy has taken its
/// damage, that enemy stood within reach, and every other enemy is as it
/// was. The health of the enemy that was hit has fallen, unless the bullet
/// carries no damage or the health cannot fall any further.
pub proof fn lemma_tick_spends_the_bullet_on_one_enemy(
    state: WorldState,
    hits: Seq<Option<u64>>,
    player_contacts: Seq<IndexedPoint>,
    pickups: Seq<IndexedPoint>,
    castle_contacts: Seq<IndexedPoint>,
    near: int,
)
    requires
        state.wf(),
        state.bullets.len() == 1,
        0 <= near < state.enemies.len(),
        within(
            state.enemies[near].pos,
            state.bullets[0].pos,
            state.config.bullet_radius as int,
        ),
        state.tick_justified(hits, player_contacts, pickups, castle_contacts),
    ensures
        state.after_tick(hits, player_contacts, pickups, castle_contacts).bullets.len() == 0,
        exists|j: int|
            0 <= j < state.enemies.len() && hits[0] == Some((#[trigger] state.enemies[j]).id)
                && within(
                state.enemies[j].pos,
                state.bullets[0].pos,
                state.config.bullet_radius as int,
            ) && state.after_tick(hits, player_contacts, pickups, castle_contacts).enemies
                == state.enemies.update(j, struck(state.enemies[j], state.bullets[0].damage)) && (
            state.bullets[0].damage > 0 && state.enemies[j].health.0 > i64::MIN ==> struck(
                state.enemies[j],
                state.bullets[0].damage,
            ).health.0 < state.enemies[j].health.0),
{
    let fresh = state.with_indexes_rebuilt();
    lemma_one_bullet_hits_one_enemy(fresh, hits, near);
    lemma_pickups_frame(
        fresh.with_bullets_resolved(hits).with_player_contacts(player_contacts),
        pickups,
    );
}

} // verus!
