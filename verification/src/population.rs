//! The population controller: how many enemies a spawn tick may create, and
//! the creation of a wave around the player.

use vstd::prelude::*;
use crate::actors::{Enemy, EnemyType, Health};
use crate::geometry::{displace, displace_spec, Point};
use crate::identity::lemma_push_fresh;
use crate::state::WorldState;
use crate::world::World;

verus! {

/// The number of enemies that a spawn tick creates: what is missing to the
/// maximum, but no more than one batch, and nothing once the maximum is
/// reached.
pub open spec fn spawn_count_spec(max_population: usize, current_population: usize, batch: usize)
    -> usize {
    if current_population >= max_population {
        0
    } else if max_population - current_population < batch {
        (max_population - current_population) as usize
    } else {
        batch
    }
}

/// Computes the number of enemies that a spawn tick creates.
pub fn spawn_count(max_population: usize, current_population: usize, batch: usize) -> (count: usize)
    ensures
        count == spawn_count_spec(max_population, current_population, batch),
        current_population + count <= max_population || count == 0,
{
    if current_population >= max_population {
        0
    } else if max_population - current_population < batch {
        max_population - current_population
    } else {
        batch
    }
}

/// Where an enemy of a wave appears and what it is.
#[derive(Clone, Copy, Debug, PartialEq, Eq, Structural)]
pub struct SpawnSite {
    /// Where the enemy appears, relative to the player.
    pub offset: Point,
    /// The archetype of the enemy.
    pub kind: EnemyType,
}

impl WorldState {
    /// The number of enemies that the next spawn tick creates when it is
    /// offered `offered` places: none without a player; otherwise the spawn
    /// count, unless fewer places are offered or fewer identities are left.
    pub open spec fn wave_size(self, offered: nat) -> nat {
        if self.player is None {
            0
        } else {
            let count = spawn_count_spec(
                self.config.max_enemies,
                self.enemies.len() as usize,
                self.config.spawn_batch,
            ) as nat;
            let left = (u64::MAX - self.next_id) as nat;
            let wanted = if offered < count { offered } else { count };
            if left < wanted { left } else { wanted }
        }
    }

    /// The enemy that a wave creates at its place number `i`.
    pub open spec fn new_enemy_at(self, i: int, site: SpawnSite) -> Enemy {
        Enemy {
            id: (self.next_id + i) as u64,
            pos: displace_spec(self.player->0.pos, site.offset),
            health: Health(self.config.enemy_health),
            kind: site.kind,
        }
    }

    /// This state with one new enemy for each of `sites`, in order, each
    /// placed relative to the player.
    pub open spec fn with_wave(self, sites: Seq<SpawnSite>) -> WorldState
        recommends
            self.player is Some,
        decreases sites.len(),
    {
        if sites.len() == 0 {
            self
        } else {
            self.with_wave(sites.drop_last()).with_enemy(
                displace_spec(self.player->0.pos, sites.last().offset),
                sites.last().kind,
            )
        }
    }
}

/// A wave leaves everything but the enemies and the identity counter as
/// it was, adds one enemy per site, and uses one identity per enemy.
pub proof fn lemma_wave_frame(state: WorldState, sites: Seq<SpawnSite>)
    requires
        state.next_id + sites.len() <= u64::MAX,
    ensures
        state.with_wave(sites) == (WorldState {
            enemies: state.with_wave(sites).enemies,
            next_id: (state.next_id + sites.len()) as u64,
            ..state
        }),
        state.with_wave(sites).enemies.len() == state.enemies.len() + sites.len(),
        forall|i: int|
            0 <= i < state.enemies.len() ==> state.with_wave(sites).enemies[i] == state.enemies[i],
        forall|i: int|
            #![trigger sites[i]]
            0 <= i < sites.len() ==> state.with_wave(sites).enemies[state.enemies.len() + i]
                == state.new_enemy_at(i, sites[i]),
    decreases sites.len(),
{
    if sites.len() > 0 {
        lemma_wave_frame(state, sites.drop_last());
        let before = state.with_wave(sites.drop_last());
        assert forall|i: int| #![trigger sites[i]] 0 <= i < sites.len() implies state.with_wave(
            sites,
        ).enemies[state.enemies.len() + i] == state.new_enemy_at(i, sites[i]) by {
            if i < sites.len() - 1 {
                assert(sites.drop_last()[i] == sites[i]);
            }
        }
    }
}

/// However many places a spawn tick is offered, the enemies never outnumber
/// the configured maximum afterwards.
pub proof fn lemma_wave_respects_cap(state: WorldState, sites: Seq<SpawnSite>)
    requires
        state.wf(),
    ensures
        state.with_wave(sites.take(state.wave_size(sites.len()) as int)).enemies.len()
            <= state.config.max_enemies,
{
    let n = state.wave_size(sites.len()) as int;
    lemma_wave_frame(state, sites.take(n));
}

impl World {
    /// The number of enemies that a spawn tick would create now if it were
    /// offered places enough: the spawn count, or nothing without a player.
    pub fn spawn_budget(&self) -> (budget: usize)
        ensures
            budget == if self@.player is None {
                0
            } else {
                spawn_count_spec(
                    self@.config.max_enemies,
                    self@.enemies.len() as usize,
                    self@.config.spawn_batch,
                )
            },
    {
        match self.player {
            Some(_) => spawn_count(
                self.config.max_enemies,
                self.enemies.len(),
                self.config.spawn_batch,
            ),
            None => 0,
        }
    }

    /// Creates a wave of enemies at the given sites, taken in order, each
    /// placed relative to the player and each with full health. The wave is
    /// as long as the spawn count allows; sites beyond that are ignored.
    /// Returns the number of enemies created.
    pub fn spawn_wave(&mut self, sites: &Vec<SpawnSite>) -> (spawned: usize)
        ensures
            old(self).wf() ==> final(self).wf(),
            spawned == old(self)@.wave_size(sites@.len()),
            final(self)@ == old(self)@.with_wave(sites@.take(spawned as int)),
            final(self)@.enemies.len() == old(self)@.enemies.len() + spawned,
            old(self)@.enemies.len() <= old(self)@.config.max_enemies ==> final(self)@.enemies.len()
                <= final(self)@.config.max_enemies,
    {
        let ghost start = self@;
        let player = match self.player {
            Some(p) => p,
            None => {
                return 0;
            },
        };
        let count: usize = spawn_count(
            self.config.max_enemies,
            self.enemies.len(),
            self.config.spawn_batch,
        );
        let wanted: usize = if sites.len() < count { sites.len() } else { count };
        let left: u64 = u64::MAX - self.next_id;
        let size: usize = if left < wanted as u64 { left as usize } else { wanted };
        let mut i: usize = 0;
        while i < size
            invariant
                i <= size <= sites.len(),
                size == start.wave_size(sites@.len()),
                start.player == Some(player),
                size == 0 || start.enemies.len() + size <= start.config.max_enemies,
                start.next_id + size <= u64::MAX,
                start.wf() ==> self.wf(),
                self@ == start.with_wave(sites@.take(i as int)),
                self@.enemies.len() == start.enemies.len() + i,
                self@.next_id == start.next_id + i,
                self@.config == start.config,
            decreases size - i,
        {
            let site: SpawnSite = sites[i];
            proof {
                assert(sites@.take(i + 1).drop_last() =~= sites@.take(i as int));
            }
            self.spawn_enemy(displace(player.pos, site.offset), site.kind);
            i += 1;
        }
        size
    }

    /// Runs one spawn tick: creates a wave of enemies of randomly drawn
    /// archetypes at the given offsets from the player, taken in order. The
    /// wave is as long as the spawn count allows; offsets beyond that are
    /// ignored. Returns the sites of the enemies created.
    pub fn spawn_enemies(&mut self, offsets: &Vec<Point>) -> (wave: Vec<SpawnSite>)
        ensures
            old(self).wf() ==> final(self).wf(),
            wave@.len() == old(self)@.wave_size(offsets@.len()),
            forall|i: int| 0 <= i < wave@.len() ==> (#[trigger] wave@[i]).offset == offsets@[i],
            final(self)@ == old(self)@.with_wave(wave@),
            final(self)@.enemies.len() == old(self)@.enemies.len() + wave@.len(),
            old(self)@.enemies.len() <= old(self)@.config.max_enemies ==> final(self)@.enemies.len()
                <= final(self)@.config.max_enemies,
    {
        let budget: usize = self.spawn_budget();
        let wanted: usize = if offsets.len() < budget { offsets.len() } else { budget };
        let left: u64 = u64::MAX - self.next_id;
        let size: usize = if left < wanted as u64 { left as usize } else { wanted };
        let mut wave: Vec<SpawnSite> = Vec::new();
        let mut i: usize = 0;
        while i < size
            invariant
                i <= size <= offsets.len(),
                wave@.len() == i,
                forall|k: int| 0 <= k < i ==> (#[trigger] wave@[k]).offset == offsets@[k],
            decreases size - i,
        {
            wave.push(SpawnSite { offset: offsets[i], kind: EnemyType::get_rand_enemy() });
            i += 1;
        }
        proof {
            assert(wave@.take(size as int) =~= wave@);
        }
        self.spawn_wave(&wave);
        wave
    }
}

/// A new enemy that finds room under the cap and an identity to take
/// leaves the state well formed.
pub proof fn lemma_new_enemy_keeps_wf(state: WorldState, pos: Point, kind: EnemyType)
    requires
        state.wf(),
        state.can_spawn_enemy(),
    ensures
        state.with_enemy(pos, kind).wf(),
{
    let enemy = state.new_enemy(pos, kind);
    lemma_push_fresh(state.enemies, enemy, state.next_id);
}

/// A wave that the spawn count allows leaves the state well formed.
pub proof fn lemma_wave_keeps_wf(state: WorldState, sites: Seq<SpawnSite>)
    requires
        state.wf(),
        sites.len() <= state.wave_size(sites.len()),
    ensures
        state.with_wave(sites).wf(),
    decreases sites.len(),
{
    if sites.len() > 0 {
        let rest = sites.drop_last();
        lemma_wave_keeps_wf(state, rest);
        lemma_wave_frame(state, rest);
        let before = state.with_wave(rest);
        lemma_new_enemy_keeps_wf(
            before,
            displace_spec(state.player->0.pos, sites.last().offset),
            sites.last().kind,
        );
    }
}

/// The state after a run of spawn ticks, each offered its own list of
/// sites.
pub open spec fn after_spawn_ticks(state: WorldState, ticks: Seq<Seq<SpawnSite>>) -> WorldState
    decreases ticks.len(),
{
    if ticks.len() == 0 {
        state
    } else {
        let before = after_spawn_ticks(state, ticks.drop_last());
        before.with_wave(ticks.last().take(before.wave_size(ticks.last().len()) as int))
    }
}

/// The population never exceeds its cap: after any run of spawn ticks,
/// whatever sites they are offered, the state is well formed, and so the
/// enemies do not outnumber the configured maximum.
pub proof fn lemma_population_never_exceeds_cap(state: WorldState, ticks: Seq<Seq<SpawnSite>>)
    requires
        state.wf(),
    ensures
        after_spawn_ticks(state, ticks).wf(),
        after_spawn_ticks(state, ticks).enemies.len() <= state.config.max_enemies,
        after_spawn_ticks(state, ticks).config == state.config,
    decreases ticks.len(),
{
    if ticks.len() > 0 {
        lemma_population_never_exceeds_cap(state, ticks.drop_last());
        let before = after_spawn_ticks(state, ticks.drop_last());
        let size = before.wave_size(ticks.last().len()) as int;
        let wave = ticks.last().take(size);
        lemma_wave_keeps_wf(before, wave);
        lemma_wave_frame(before, wave);
    }
}

} // verus!
