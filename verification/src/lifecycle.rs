//! Lifecycle and economy: consuming the queued events, turning dead enemies
//! into loot, and noticing the fall of the castle.

use vstd::prelude::*;
use crate::actors::{health_after, Castle, Enemy, Gold, Health, Player};
use crate::events::PlayerGoldCollisionEvent;
use crate::identity::{all_below, tags};
use crate::state::WorldState;
use crate::world::World;

verus! {

/// The enemies that are dead.
pub open spec fn fallen() -> spec_fn(Enemy) -> bool {
    |e: Enemy| e.health.dead()
}

/// The enemies that are not dead.
pub open spec fn standing() -> spec_fn(Enemy) -> bool {
    |e: Enemy| !e.health.dead()
}

/// The gold item that the dead enemy `e` leaves behind: it lies where the
/// enemy stood and takes over the enemy's identity.
pub open spec fn loot(e: Enemy, value: u64) -> Gold {
    Gold { id: e.id, pos: e.pos, value }
}

/// The gold that a list of dead enemies leaves behind, one item each.
pub open spec fn loot_of(dead: Seq<Enemy>, value: u64) -> Seq<Gold> {
    dead.map_values(|e: Enemy| loot(e, value))
}

/// What a list of pickups is worth in all.
pub open spec fn total_value(pickups: Seq<PlayerGoldCollisionEvent>) -> int
    decreases pickups.len(),
{
    if pickups.len() == 0 {
        0
    } else {
        total_value(pickups.drop_last()) + pickups.last().value
    }
}

/// The ledger after `pickups` were credited to it. The ledger stops rising
/// at the largest value it can hold.
pub open spec fn credited(ledger: u64, pickups: Seq<PlayerGoldCollisionEvent>) -> u64 {
    if ledger + total_value(pickups) > u64::MAX {
        u64::MAX
    } else {
        (ledger + total_value(pickups)) as u64
    }
}

/// A list of pickups is worth at least nothing.
pub proof fn lemma_total_value_not_negative(pickups: Seq<PlayerGoldCollisionEvent>)
    ensures
        total_value(pickups) >= 0,
    decreases pickups.len(),
{
    if pickups.len() > 0 {
        lemma_total_value_not_negative(pickups.drop_last());
    }
}

/// The ledger never falls: crediting pickups leaves it at least as full as
/// it was.
pub proof fn lemma_ledger_never_falls(ledger: u64, pickups: Seq<PlayerGoldCollisionEvent>)
    ensures
        credited(ledger, pickups) >= ledger,
{
    lemma_total_value_not_negative(pickups);
}

impl WorldState {
    /// This state after the queued contacts with the player were consumed:
    /// the player, if there is one, has lost the contact damage once for
    /// each queued contact, and the queue is empty.
    pub open spec fn with_player_contacts_consumed(self) -> WorldState {
        WorldState {
            player: match self.player {
                Some(p) => Some(
                    Player {
                        health: Health(
                            health_after(
                                p.health.0 as int,
                                self.config.enemy_damage as int,
                                self.player_contacts.len() as int,
                            ) as i64,
                        ),
                        ..p
                    },
                ),
                None => None,
            },
            player_contacts: Seq::empty(),
            ..self
        }
    }

    /// This state after the queued contacts with the castle were consumed:
    /// the castle, if there is one, has lost the contact damage once for
    /// each queued contact, and the queue is empty.
    pub open spec fn with_castle_contacts_consumed(self) -> WorldState {
        WorldState {
            castle: match self.castle {
                Some(c) => Some(
                    Castle {
                        health: Health(
                            health_after(
                                c.health.0 as int,
                                self.config.enemy_damage as int,
                                self.castle_contacts.len() as int,
                            ) as i64,
                        ),
                        ..c
                    },
                ),
                None => None,
            },
            castle_contacts: Seq::empty(),
            ..self
        }
    }

    /// This state after the queued pickups were consumed: the player's
    /// ledger, if there is a player, has risen by the value of each queued
    /// pickup, and the queue is empty.
    pub open spec fn with_pickups_consumed(self) -> WorldState {
        WorldState {
            player: match self.player {
                Some(p) => Some(Player { gold: credited(p.gold, self.pickups), ..p }),
                None => None,
            },
            pickups: Seq::empty(),
            ..self
        }
    }

    /// This state after the dead enemies were swept away: every enemy whose
    /// health is zero or less is gone, and for each of them one gold item
    /// lies where it stood.
    pub open spec fn with_dead_enemies_swept(self) -> WorldState {
        WorldState {
            enemies: self.enemies.filter(standing()),
            gold: self.gold + loot_of(self.enemies.filter(fallen()), self.config.gold_value),
            ..self
        }
    }

    /// The castle stands in this state with its health at zero or less.
    pub open spec fn castle_fallen(self) -> bool {
        self.castle matches Some(c) && c.health.dead()
    }

    /// The player stands in this state with their health at zero or less.
    pub open spec fn player_fallen(self) -> bool {
        self.player matches Some(p) && p.health.dead()
    }

    /// This state after the castle was looked at: if it has fallen, the
    /// session is over, and it stays over.
    pub open spec fn with_castle_checked(self) -> WorldState {
        WorldState { defeated: self.defeated || self.castle_fallen(), ..self }
    }
}

impl World {
    /// Consumes the queued contacts between enemies and the player: each of
    /// them costs the player the configured contact damage. All contacts of
    /// a tick add up. Without a player the contacts are dropped.
    pub fn handle_player_enemy_collision_events(&mut self)
        ensures
            old(self).wf() ==> final(self).wf(),
            final(self)@ == old(self)@.with_player_contacts_consumed(),
    {
        match self.player {
            Some(p) => {
                let health = p.health.damaged(self.config.enemy_damage, self.player_contacts.len());
                self.player = Some(Player { health, ..p });
            },
            None => {},
        }
        self.player_contacts = Vec::new();
    }

    /// Consumes the queued contacts between enemies and the castle: each of
    /// them costs the castle the configured contact damage. Without a castle
    /// the contacts are dropped.
    pub fn handle_castle_enemy_collision_events(&mut self)
        ensures
            old(self).wf() ==> final(self).wf(),
            final(self)@ == old(self)@.with_castle_contacts_consumed(),
    {
        match self.castle {
            Some(c) => {
                let health = c.health.damaged(self.config.enemy_damage, self.castle_contacts.len());
                self.castle = Some(Castle { health, ..c });
            },
            None => {},
        }
        self.castle_contacts = Vec::new();
    }

    /// Consumes the queued pickups: each of them adds the value of its item
    /// to the player's ledger, which never falls. Without a player the
    /// pickups are dropped.
    pub fn handle_player_gold_collision_events(&mut self)
        ensures
            old(self).wf() ==> final(self).wf(),
            final(self)@ == old(self)@.with_pickups_consumed(),
    {
        match self.player {
            Some(p) => {
                let mut ledger: u64 = p.gold;
                let mut i: usize = 0;
                while i < self.pickups.len()
                    invariant
                        i <= self.pickups.len(),
                        ledger == credited(p.gold, self.pickups@.take(i as int)),
                    decreases self.pickups.len() - i,
                {
                    proof {
                        assert(self.pickups@.take(i + 1).drop_last() =~= self.pickups@.take(
                            i as int,
                        ));
                        lemma_total_value_not_negative(self.pickups@.take(i as int));
                    }
                    ledger = ledger.saturating_add(self.pickups[i].value);
                    i += 1;
                }
                proof {
                    assert(self.pickups@.take(i as int) =~= self.pickups@);
                }
                self.player = Some(Player { gold: ledger, ..p });
            },
            None => {},
        }
        self.pickups = Vec::new();
    }

    /// Sweeps the enemies: every enemy whose health is zero or less is
    /// removed, and one gold item of the configured value is laid down where
    /// it stood. Returns the number of enemies removed, which is the number
    /// of gold items created.
    pub fn despawn_dead_enemies(&mut self) -> (deaths: usize)
        ensures
            old(self).wf() ==> final(self).wf(),
            final(self)@ == old(self)@.with_dead_enemies_swept(),
            deaths == old(self)@.enemies.filter(fallen()).len(),
            final(self)@.gold.len() == old(self)@.gold.len() + deaths,
            final(self)@.enemies.len() + deaths == old(self)@.enemies.len(),
    {
        let ghost start = self@;
        let value: u64 = self.config.gold_value;
        let mut kept: Vec<Enemy> = Vec::new();
        let mut deaths: usize = 0;
        let mut i: usize = 0;
        proof {
            reveal(Seq::filter);
        }
        while i < self.enemies.len()
            invariant
                i <= self.enemies.len(),
                value == start.config.gold_value,
                self@ == (WorldState { gold: self.gold@, ..start }),
                kept@ == start.enemies.take(i as int).filter(standing()),
                self.gold@ == start.gold + loot_of(
                    start.enemies.take(i as int).filter(fallen()),
                    value,
                ),
                deaths == start.enemies.take(i as int).filter(fallen()).len(),
                kept@.len() + deaths == i,
            decreases self.enemies.len() - i,
        {
            let enemy: Enemy = self.enemies[i];
            proof {
                reveal(Seq::filter);
                assert(start.enemies.take(i + 1).drop_last() =~= start.enemies.take(i as int));
            }
            if enemy.health.is_dead() {
                self.gold.push(Gold { id: enemy.id, pos: enemy.pos, value });
                deaths += 1;
            } else {
                kept.push(enemy);
            }
            i += 1;
        }
        proof {
            assert(start.enemies.take(i as int) =~= start.enemies);
            if start.wf() {
                lemma_sweep_keeps_wf(start);
            }
        }
        self.enemies = kept;
        deaths
    }

    /// Looks at the castle: once its health is zero or less the session is
    /// over, and stays over. Returns whether the session is over.
    pub fn handle_castle_death(&mut self) -> (defeated: bool)
        ensures
            old(self).wf() ==> final(self).wf(),
            final(self)@ == old(self)@.with_castle_checked(),
            defeated == final(self)@.defeated,
    {
        match self.castle {
            Some(c) => {
                if c.health.is_dead() {
                    self.defeated = true;
                }
            },
            None => {},
        }
        self.defeated
    }

    /// Looks at the player: tells whether there is a player whose health is
    /// zero or less. The session goes on either way.
    pub fn handle_player_death(&self) -> (fallen: bool)
        ensures
            fallen == self@.player_fallen(),
    {
        match self.player {
            Some(p) => p.health.is_dead(),
            None => false,
        }
    }
}

/// The enemies picked out by a property are enemies that there were, in
/// their old order: each of them has the property, and their identities are
/// still unique and still below the same bound.
pub proof fn lemma_part_of_the_enemies(enemies: Seq<Enemy>, pick: spec_fn(Enemy) -> bool, bound: u64)
    requires
        tags(enemies).no_duplicates(),
        all_below(tags(enemies), bound),
    ensures
        tags(enemies.filter(pick)).no_duplicates(),
        all_below(tags(enemies.filter(pick)), bound),
        forall|k: int|
            0 <= k < enemies.filter(pick).len() ==> pick(#[trigger] enemies.filter(pick)[k])
                && enemies.contains(enemies.filter(pick)[k]),
    decreases enemies.len(),
{
    reveal(Seq::filter);
    if enemies.len() > 0 {
        let rest = enemies.drop_last();
        let last = enemies.last();
        let before = rest.filter(pick);
        assert forall|w: int| 0 <= w < rest.len() implies #[trigger] tags(rest)[w] == tags(
            enemies,
        )[w] && rest[w].id != last.id by {
            assert(tags(enemies)[enemies.len() - 1] == last.id);
        }
        lemma_part_of_the_enemies(rest, pick, bound);
        assert forall|k: int| 0 <= k < before.len() implies enemies.contains(
            #[trigger] before[k],
        ) && before[k].id != last.id by {
            let w = choose|w: int| 0 <= w < rest.len() && rest[w] == before[k];
            assert(enemies[w] == before[k]);
            assert(tags(rest)[w] == before[k].id);
        }
        assert(enemies[enemies.len() - 1] == last);
        if pick(last) {
            assert(tags(before.push(last)) =~= tags(before).push(last.id));
            assert(tags(enemies)[enemies.len() - 1] == last.id);
        }
    }
}

/// The sweep leaves the state well formed: the loot takes over the
/// identities of the dead, which no living enemy and no other gold item
/// carries.
pub proof fn lemma_sweep_keeps_wf(state: WorldState)
    requires
        state.wf(),
    ensures
        state.with_dead_enemies_swept().wf(),
{
    let alive = state.enemies.filter(standing());
    let dead = state.enemies.filter(fallen());
    let left = loot_of(dead, state.config.gold_value);
    let after = state.with_dead_enemies_swept();
    lemma_part_of_the_enemies(state.enemies, standing(), state.next_id);
    lemma_part_of_the_enemies(state.enemies, fallen(), state.next_id);
    lemma_sweep_parts(state.enemies);
    assert(tags(left) =~= tags(dead));
    assert(tags(after.gold) =~= tags(state.gold) + tags(dead));
    // Every identity of the dead is an identity of an enemy.
    assert forall|k: int| 0 <= k < dead.len() implies tags(state.enemies).contains(
        #[trigger] tags(dead)[k],
    ) by {
        let w = choose|w: int| 0 <= w < state.enemies.len() && state.enemies[w] == dead[k];
        assert(tags(state.enemies)[w] == tags(dead)[k]);
    }
    // A living enemy shares its identity with no dead one: they would be the
    // same enemy.
    assert forall|a: int, d: int| 0 <= a < alive.len() && 0 <= d < dead.len() implies tags(
        alive,
    )[a] != tags(dead)[d] by {
        let wa = choose|w: int| 0 <= w < state.enemies.len() && state.enemies[w] == alive[a];
        let wd = choose|w: int| 0 <= w < state.enemies.len() && state.enemies[w] == dead[d];
        assert(tags(state.enemies)[wa] == alive[a].id);
        assert(tags(state.enemies)[wd] == dead[d].id);
    }
    assert forall|a: int| 0 <= a < alive.len() implies tags(state.enemies).contains(
        #[trigger] tags(alive)[a],
    ) by {
        let w = choose|w: int| 0 <= w < state.enemies.len() && state.enemies[w] == alive[a];
        assert(tags(state.enemies)[w] == tags(alive)[a]);
    }
}

/// Death turns into loot, one for one. The sweep lays down exactly one gold
/// item for each dead enemy, where that enemy stood; it touches no gold
/// that lay there before; and the enemies that stay and the enemies that
/// go make up the enemies there were.
pub proof fn lemma_loot_lies_where_the_enemy_fell(state: WorldState, i: int)
    requires
        0 <= i < state.enemies.filter(fallen()).len(),
    ensures
        state.with_dead_enemies_swept().gold.len() == state.gold.len() + state.enemies.filter(
            fallen(),
        ).len(),
        state.with_dead_enemies_swept().gold[state.gold.len() + i] == loot(
            state.enemies.filter(fallen())[i],
            state.config.gold_value,
        ),
        state.enemies.contains(state.enemies.filter(fallen())[i]),
        state.enemies.filter(fallen())[i].health.dead(),
        forall|k: int|
            0 <= k < state.gold.len() ==> state.with_dead_enemies_swept().gold[k] == state.gold[k],
        state.enemies.filter(standing()).len() + state.enemies.filter(fallen()).len()
            == state.enemies.len(),
{
    let dead = state.enemies.filter(fallen());
    state.enemies.lemma_filter_contains_rev(fallen(), dead[i]);
    lemma_sweep_parts(state.enemies);
}

/// The enemies that stand and the enemies that have fallen make up all the
/// enemies.
pub proof fn lemma_sweep_parts(enemies: Seq<Enemy>)
    ensures
        enemies.filter(standing()).len() + enemies.filter(fallen()).len() == enemies.len(),
    decreases enemies.len(),
{
    reveal(Seq::filter);
    if enemies.len() > 0 {
        lemma_sweep_parts(enemies.drop_last());
    }
}

/// The sweep removes the dead and only the dead: an enemy is there after
/// the sweep exactly if it was there before and is not dead.
pub proof fn lemma_sweep_spares_the_living(state: WorldState, e: Enemy)
    ensures
        state.with_dead_enemies_swept().enemies.contains(e) <==> state.enemies.contains(e)
            && !e.health.dead(),
{
    let kept = state.enemies.filter(standing());
    if kept.contains(e) {
        state.enemies.lemma_filter_contains_rev(standing(), e);
    }
    if state.enemies.contains(e) && !e.health.dead() {
        let w = choose|w: int| 0 <= w < state.enemies.len() && state.enemies[w] == e;
        state.enemies.lemma_filter_contains(standing(), w);
    }
}

} // verus!
