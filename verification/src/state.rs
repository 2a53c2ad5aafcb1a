//! The simulation state as a mathematical value, what makes it well
//! formed, and the states that creating and removing actors lead to.

use vstd::prelude::*;
use vstd::multiset::Multiset;
use crate::actors::{Bullet, Castle, Enemy, EnemyType, Gold, Health, Player};
use crate::config::Config;
use crate::events::{
    CastleEnemyCollisionEvent, PlayerEnemyCollisionEvent, PlayerGoldCollisionEvent,
};
use crate::geometry::Point;
use crate::identity::{all_below, disjoint, position, tags};
use crate::index::IndexedPoint;

verus! {

/// The simulation state as a mathematical value.
pub struct WorldState {
    pub config: Config,
    pub player: Option<Player>,
    pub castle: Option<Castle>,
    pub enemies: Seq<Enemy>,
    pub bullets: Seq<Bullet>,
    pub gold: Seq<Gold>,
    /// The identity that the next new actor will get.
    pub next_id: u64,
    /// The enemies as they stood when the enemy index was last rebuilt.
    pub enemy_index: Multiset<IndexedPoint>,
    /// The gold as it lay when the gold index was last rebuilt.
    pub gold_index: Multiset<IndexedPoint>,
    /// Contacts between enemies and the player that await consumption.
    pub player_contacts: Seq<PlayerEnemyCollisionEvent>,
    /// Contacts between enemies and the castle that await consumption.
    pub castle_contacts: Seq<CastleEnemyCollisionEvent>,
    /// Pickups that await consumption.
    pub pickups: Seq<PlayerGoldCollisionEvent>,
    /// The castle has fallen: the session is over.
    pub defeated: bool,
}

impl WorldState {
    /// The state of a simulation that has just been set up: no actors, empty
    /// indexes, nothing pending.
    pub open spec fn initial(config: Config) -> WorldState {
        WorldState {
            config,
            player: None,
            castle: None,
            enemies: Seq::empty(),
            bullets: Seq::empty(),
            gold: Seq::empty(),
            next_id: 0,
            enemy_index: Multiset::empty(),
            gold_index: Multiset::empty(),
            player_contacts: Seq::empty(),
            castle_contacts: Seq::empty(),
            pickups: Seq::empty(),
            defeated: false,
        }
    }

    /// The state is well formed: identities are unique among the actors of
    /// a kind, an enemy and a gold item never share one, every identity in
    /// use has been handed out, and the enemies do not outnumber the
    /// configured maximum.
    pub open spec fn wf(self) -> bool {
        &&& tags(self.enemies).no_duplicates()
        &&& tags(self.bullets).no_duplicates()
        &&& tags(self.gold).no_duplicates()
        &&& disjoint(tags(self.enemies), tags(self.gold))
        &&& all_below(tags(self.enemies), self.next_id)
        &&& all_below(tags(self.bullets), self.next_id)
        &&& all_below(tags(self.gold), self.next_id)
        &&& self.enemies.len() <= self.config.max_enemies
    }

    /// The enemy called `id` is alive in this state.
    pub open spec fn has_enemy(self, id: u64) -> bool {
        tags(self.enemies).contains(id)
    }

    /// The gold item called `id` lies on the ground in this state.
    pub open spec fn has_gold(self, id: u64) -> bool {
        tags(self.gold).contains(id)
    }

    /// An enemy can be created: there is room under the population cap and
    /// an identity left to give.
    pub open spec fn can_spawn_enemy(self) -> bool {
        self.enemies.len() < self.config.max_enemies && self.next_id < u64::MAX
    }

    /// The enemy that `spawn_enemy` creates at `pos`.
    pub open spec fn new_enemy(self, pos: Point, kind: EnemyType) -> Enemy {
        Enemy { id: self.next_id, pos, health: Health(self.config.enemy_health), kind }
    }

    /// This state with a new enemy of archetype `kind` at `pos`.
    pub open spec fn with_enemy(self, pos: Point, kind: EnemyType) -> WorldState {
        WorldState {
            enemies: self.enemies.push(self.new_enemy(pos, kind)),
            next_id: (self.next_id + 1) as u64,
            ..self
        }
    }

    /// This state with a new bullet at `pos`, flying along `dir`.
    pub open spec fn with_bullet(self, pos: Point, dir: Point) -> WorldState {
        WorldState {
            bullets: self.bullets.push(
                Bullet { id: self.next_id, pos, dir, damage: self.config.bullet_damage },
            ),
            next_id: (self.next_id + 1) as u64,
            ..self
        }
    }

    /// This state with a new gold item at `pos`.
    pub open spec fn with_gold(self, pos: Point) -> WorldState {
        WorldState {
            gold: self.gold.push(Gold { id: self.next_id, pos, value: self.config.gold_value }),
            next_id: (self.next_id + 1) as u64,
            ..self
        }
    }

    /// This state with a new player at `pos`.
    pub open spec fn with_player(self, pos: Point) -> WorldState {
        WorldState {
            player: Some(Player { pos, health: Health(self.config.player_health), gold: 0 }),
            ..self
        }
    }

    /// This state with a new castle at `pos`.
    pub open spec fn with_castle(self, pos: Point) -> WorldState {
        WorldState {
            castle: Some(Castle { pos, health: Health(self.config.castle_health) }),
            ..self
        }
    }

    /// This state without the bullet called `id`.
    pub open spec fn without_bullet(self, id: u64) -> WorldState {
        match position(tags(self.bullets), id) {
            Some(i) => WorldState { bullets: self.bullets.remove(i), ..self },
            None => self,
        }
    }

    /// This state after teardown: no actors and nothing pending. The
    /// configuration, the identity counter and the outcome of the session
    /// stay.
    pub open spec fn cleared(self) -> WorldState {
        WorldState {
            next_id: self.next_id,
            defeated: self.defeated,
            ..WorldState::initial(self.config)
        }
    }
}

} // verus!
