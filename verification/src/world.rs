//! The simulation state: every actor, both spatial indexes, the queues of
//! pending events, and the operations that create and remove actors.

use vstd::prelude::*;
use crate::actors::{Bullet, Castle, Enemy, EnemyType, Gold, Health, Player};
use crate::config::Config;
use crate::events::{
    CastleEnemyCollisionEvent, PlayerEnemyCollisionEvent, PlayerGoldCollisionEvent,
};
use crate::geometry::Point;
use crate::identity::{find, lemma_push_fresh, lemma_remove_keeps_order, position, tags};
use crate::index::{radius_matches, IndexedPoint, SpatialIndex};
use crate::state::WorldState;

verus! {

/// The simulation state.
pub struct World {
    pub(crate) config: Config,
    pub(crate) player: Option<Player>,
    pub(crate) castle: Option<Castle>,
    pub(crate) enemies: Vec<Enemy>,
    pub(crate) bullets: Vec<Bullet>,
    pub(crate) gold: Vec<Gold>,
    pub(crate) next_id: u64,
    pub(crate) enemy_index: SpatialIndex,
    pub(crate) gold_index: SpatialIndex,
    pub(crate) player_contacts: Vec<PlayerEnemyCollisionEvent>,
    pub(crate) castle_contacts: Vec<CastleEnemyCollisionEvent>,
    pub(crate) pickups: Vec<PlayerGoldCollisionEvent>,
    pub(crate) defeated: bool,
}

impl World {
    /// The state as a mathematical value.
    pub open(crate) spec fn view(&self) -> WorldState {
        WorldState {
            config: self.config,
            player: self.player,
            castle: self.castle,
            enemies: self.enemies@,
            bullets: self.bullets@,
            gold: self.gold@,
            next_id: self.next_id,
            enemy_index: self.enemy_index@,
            gold_index: self.gold_index@,
            player_contacts: self.player_contacts@,
            castle_contacts: self.castle_contacts@,
            pickups: self.pickups@,
            defeated: self.defeated,
        }
    }

    /// The state is well formed. Every world that this library hands out is,
    /// and every operation keeps it so.
    pub open spec fn wf(&self) -> bool {
        self@.wf()
    }

    /// Sets up a simulation without actors.
    pub fn new(config: Config) -> (world: World)
        ensures
            world@ == WorldState::initial(config),
            world.wf(),
    {
        World {
            config,
            player: None,
            castle: None,
            enemies: Vec::new(),
            bullets: Vec::new(),
            gold: Vec::new(),
            next_id: 0,
            enemy_index: SpatialIndex::new(),
            gold_index: SpatialIndex::new(),
            player_contacts: Vec::new(),
            castle_contacts: Vec::new(),
            pickups: Vec::new(),
            defeated: false,
        }
    }

    /// Creates the player at `pos` with full health and an empty ledger,
    /// unless there already is a player: there is never more than one.
    pub fn spawn_player(&mut self, pos: Point) -> (created: bool)
        ensures
            old(self).wf() ==> final(self).wf(),
            created == (old(self)@.player is None),
            final(self)@ == if created {
                old(self)@.with_player(pos)
            } else {
                old(self)@
            },
    {
        if self.player.is_some() {
            return false;
        }
        self.player = Some(Player { pos, health: Health(self.config.player_health), gold: 0 });
        true
    }

    /// Creates the castle at `pos` with full health, unless there already is
    /// a castle: there is never more than one.
    pub fn spawn_castle(&mut self, pos: Point) -> (created: bool)
        ensures
            old(self).wf() ==> final(self).wf(),
            created == (old(self)@.castle is None),
            final(self)@ == if created {
                old(self)@.with_castle(pos)
            } else {
                old(self)@
            },
    {
        if self.castle.is_some() {
            return false;
        }
        self.castle = Some(Castle { pos, health: Health(self.config.castle_health) });
        true
    }

    /// Creates an enemy of archetype `kind` at `pos` with full health and
    /// returns its identity. Nothing is created, and `None` returned, when
    /// the population is at its cap or no identity is left.
    pub fn spawn_enemy(&mut self, pos: Point, kind: EnemyType) -> (created: Option<u64>)
        ensures
            old(self).wf() ==> final(self).wf(),
            created is Some == old(self)@.can_spawn_enemy(),
            match created {
                Some(id) => id == old(self)@.next_id && final(self)@ == old(self)@.with_enemy(
                    pos,
                    kind,
                ),
                None => final(self)@ == old(self)@,
            },
    {
        if self.enemies.len() >= self.config.max_enemies || self.next_id == u64::MAX {
            return None;
        }
        let id: u64 = self.next_id;
        let enemy = Enemy { id, pos, health: Health(self.config.enemy_health), kind };
        proof {
            if self.wf() {
                lemma_push_fresh(self.enemies@, enemy, id);
            }
        }
        self.enemies.push(enemy);
        self.next_id = id + 1;
        Some(id)
    }

    /// Creates a bullet at `pos` that flies along `dir` and carries the
    /// configured damage, and returns its identity. Nothing is created, and
    /// `None` returned, when no identity is left.
    pub fn spawn_bullet(&mut self, pos: Point, dir: Point) -> (created: Option<u64>)
        ensures
            old(self).wf() ==> final(self).wf(),
            created is Some == (old(self)@.next_id < u64::MAX),
            match created {
                Some(id) => id == old(self)@.next_id && final(self)@ == old(self)@.with_bullet(
                    pos,
                    dir,
                ),
                None => final(self)@ == old(self)@,
            },
    {
        if self.next_id == u64::MAX {
            return None;
        }
        let id: u64 = self.next_id;
        let bullet = Bullet { id, pos, dir, damage: self.config.bullet_damage };
        proof {
            if self.wf() {
                lemma_push_fresh(self.bullets@, bullet, id);
            }
        }
        self.bullets.push(bullet);
        self.next_id = id + 1;
        Some(id)
    }

    /// Creates a gold item of the configured value at `pos` and returns its
    /// identity. Nothing is created, and `None` returned, when no identity
    /// is left.
    pub fn spawn_gold(&mut self, pos: Point) -> (created: Option<u64>)
        ensures
            old(self).wf() ==> final(self).wf(),
            created is Some == (old(self)@.next_id < u64::MAX),
            match created {
                Some(id) => id == old(self)@.next_id && final(self)@ == old(self)@.with_gold(pos),
                None => final(self)@ == old(self)@,
            },
    {
        if self.next_id == u64::MAX {
            return None;
        }
        let id: u64 = self.next_id;
        let gold = Gold { id, pos, value: self.config.gold_value };
        proof {
            if self.wf() {
                lemma_push_fresh(self.gold@, gold, id);
            }
        }
        self.gold.push(gold);
        self.next_id = id + 1;
        Some(id)
    }

    /// Removes the bullet called `id`, as when it has flown its time. Tells
    /// whether there was such a bullet.
    pub fn remove_bullet(&mut self, id: u64) -> (removed: bool)
        ensures
            old(self).wf() ==> final(self).wf(),
            removed == tags(old(self)@.bullets).contains(id),
            final(self)@ == old(self)@.without_bullet(id),
    {
        match find(&self.bullets, id) {
            Some(i) => {
                proof {
                    if self.wf() {
                        lemma_remove_keeps_order(self.bullets@, i as int, self.next_id);
                    }
                }
                self.bullets.remove(i);
                true
            },
            None => false,
        }
    }

    /// Removes every actor and every pending event, as when a session is
    /// torn down. The configuration and the outcome of the session stay.
    pub fn despawn_all_game_entities(&mut self)
        ensures
            old(self).wf() ==> final(self).wf(),
            final(self)@ == old(self)@.cleared(),
    {
        self.player = None;
        self.castle = None;
        self.enemies = Vec::new();
        self.bullets = Vec::new();
        self.gold = Vec::new();
        self.enemy_index = SpatialIndex::new();
        self.gold_index = SpatialIndex::new();
        self.player_contacts = Vec::new();
        self.castle_contacts = Vec::new();
        self.pickups = Vec::new();
    }
}

impl World {
    /// The configuration this simulation was set up with.
    pub fn config(&self) -> (config: Config)
        ensures
            config == self@.config,
    {
        self.config
    }

    /// The player, if there is one.
    pub fn player(&self) -> (player: Option<Player>)
        ensures
            player == self@.player,
    {
        self.player
    }

    /// The castle, if there is one.
    pub fn castle(&self) -> (castle: Option<Castle>)
        ensures
            castle == self@.castle,
    {
        self.castle
    }

    /// The enemies, in the order in which they were created.
    pub fn enemies(&self) -> (enemies: &Vec<Enemy>)
        ensures
            enemies@ == self@.enemies,
    {
        &self.enemies
    }

    /// The bullets in flight, in the order in which they were created.
    pub fn bullets(&self) -> (bullets: &Vec<Bullet>)
        ensures
            bullets@ == self@.bullets,
    {
        &self.bullets
    }

    /// The gold on the ground, in the order in which it was laid down.
    pub fn gold(&self) -> (gold: &Vec<Gold>)
        ensures
            gold@ == self@.gold,
    {
        &self.gold
    }

    /// The number of enemies.
    pub fn enemy_count(&self) -> (count: usize)
        ensures
            count == self@.enemies.len(),
    {
        self.enemies.len()
    }

    /// The enemy called `id`, if it exists.
    pub fn enemy(&self, id: u64) -> (enemy: Option<Enemy>)
        ensures
            enemy is Some == self@.has_enemy(id),
            enemy == match position(tags(self@.enemies), id) {
                Some(i) => Some(self@.enemies[i]),
                None => None,
            },
    {
        match find(&self.enemies, id) {
            Some(i) => Some(self.enemies[i]),
            None => None,
        }
    }

    /// The player's health as shown to the outside: never below zero.
    /// Without a player there is nothing to show.
    pub fn player_health(&self) -> (shown: Option<u64>)
        ensures
            match self@.player {
                Some(p) => shown == Some(if p.health.0 < 0 { 0u64 } else { p.health.0 as u64 }),
                None => shown is None,
            },
    {
        match self.player {
            Some(p) => Some(p.health.current()),
            None => None,
        }
    }

    /// The castle's health as shown to the outside: never below zero.
    /// Without a castle there is nothing to show.
    pub fn castle_health(&self) -> (shown: Option<u64>)
        ensures
            match self@.castle {
                Some(c) => shown == Some(if c.health.0 < 0 { 0u64 } else { c.health.0 as u64 }),
                None => shown is None,
            },
    {
        match self.castle {
            Some(c) => Some(c.health.current()),
            None => None,
        }
    }

    /// The player's ledger: everything collected so far. Without a player
    /// there is no ledger.
    pub fn gold_count(&self) -> (ledger: Option<u64>)
        ensures
            match self@.player {
                Some(p) => ledger == Some(p.gold),
                None => ledger is None,
            },
    {
        match self.player {
            Some(p) => Some(p.gold),
            None => None,
        }
    }

    /// The session is over: the castle has fallen.
    pub fn is_defeated(&self) -> (defeated: bool)
        ensures
            defeated == self@.defeated,
    {
        self.defeated
    }

    /// The contacts between enemies and the player that await consumption.
    pub fn pending_player_contacts(&self) -> (events: &Vec<PlayerEnemyCollisionEvent>)
        ensures
            events@ == self@.player_contacts,
    {
        &self.player_contacts
    }

    /// The contacts between enemies and the castle that await consumption.
    pub fn pending_castle_contacts(&self) -> (events: &Vec<CastleEnemyCollisionEvent>)
        ensures
            events@ == self@.castle_contacts,
    {
        &self.castle_contacts
    }

    /// The pickups that await consumption.
    pub fn pending_pickups(&self) -> (events: &Vec<PlayerGoldCollisionEvent>)
        ensures
            events@ == self@.pickups,
    {
        &self.pickups
    }

    /// Queries the enemy index as it was last rebuilt.
    pub fn enemies_near(&self, center: Point, radius: u32) -> (found: Vec<IndexedPoint>)
        ensures
            found@.to_multiset() == radius_matches(
                self@.enemy_index,
                center,
                radius as int,
            ),
    {
        self.enemy_index.query_radius(center, radius)
    }

    /// Queries the gold index as it was last rebuilt.
    pub fn gold_near(&self, center: Point, radius: u32) -> (found: Vec<IndexedPoint>)
        ensures
            found@.to_multiset() == radius_matches(
                self@.gold_index,
                center,
                radius as int,
            ),
    {
        self.gold_index.query_radius(center, radius)
    }
}

} // verus!
