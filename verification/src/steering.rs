//! Movement: every enemy walks in a straight line toward its target, every
//! bullet flies along its direction, and the player moves where they are
//! pushed.

use vstd::prelude::*;
use crate::actors::{Behavior, Bullet, Enemy, EnemyType, Player};
use crate::geometry::{advance, advance_spec, step_toward, step_toward_spec, Point};
use crate::identity::tags;
use crate::state::WorldState;
use crate::world::World;

verus! {

/// The point that an enemy of archetype `kind` steers toward.
pub open spec fn target_of(kind: EnemyType, player: Point, castle: Point) -> Point {
    match kind.seeks() {
        Behavior::SeeksPlayer => player,
        Behavior::SeeksCastle => castle,
    }
}

/// The enemy `e` after one step toward its target.
pub open spec fn stepped(e: Enemy, player: Point, castle: Point, speed: u32) -> Enemy {
    Enemy { pos: step_toward_spec(e.pos, target_of(e.kind, player, castle), speed as int), ..e }
}

/// The bullet `b` after one step along its direction.
pub open spec fn flown(b: Bullet, speed: u32) -> Bullet {
    Bullet { pos: advance_spec(b.pos, b.dir.x as int, b.dir.y as int, speed as int), ..b }
}

impl WorldState {
    /// This state after every enemy took one step toward its target. The
    /// enemies move only while both the player and the castle exist.
    pub open spec fn with_enemies_moved(self) -> WorldState {
        match (self.player, self.castle) {
            (Some(p), Some(c)) => WorldState {
                enemies: self.enemies.map_values(
                    |e: Enemy| stepped(e, p.pos, c.pos, self.config.enemy_speed),
                ),
                ..self
            },
            _ => self,
        }
    }

    /// This state after every bullet took one step along its direction.
    pub open spec fn with_bullets_moved(self) -> WorldState {
        WorldState {
            bullets: self.bullets.map_values(|b: Bullet| flown(b, self.config.bullet_speed)),
            ..self
        }
    }

    /// This state after the player, if there is one, took one step along
    /// `dir`.
    pub open spec fn with_player_moved(self, dir: Point) -> WorldState {
        WorldState {
            player: match self.player {
                Some(p) => Some(
                    Player {
                        pos: advance_spec(
                            p.pos,
                            dir.x as int,
                            dir.y as int,
                            self.config.player_speed as int,
                        ),
                        ..p
                    },
                ),
                None => None,
            },
            ..self
        }
    }
}

impl World {
    /// Moves every enemy one step of the configured length toward its
    /// target: the player for enemies that hunt the player, the castle for
    /// all others. An enemy that stands on its target stays there. Nothing
    /// moves unless both the player and the castle exist.
    pub fn update_enemy_transform(&mut self)
        ensures
            old(self).wf() ==> final(self).wf(),
            final(self)@ == old(self)@.with_enemies_moved(),
    {
        let ghost start = self@;
        let (player, castle) = match (self.player, self.castle) {
            (Some(p), Some(c)) => (p.pos, c.pos),
            _ => {
                return ;
            },
        };
        let speed: u32 = self.config.enemy_speed;
        let ghost moved = start.enemies.map_values(|e: Enemy| stepped(e, player, castle, speed));
        let mut i: usize = 0;
        while i < self.enemies.len()
            invariant
                i <= self.enemies.len(),
                self.enemies@.len() == start.enemies.len(),
                moved == start.enemies.map_values(|e: Enemy| stepped(e, player, castle, speed)),
                self@ == (WorldState { enemies: self.enemies@, ..start }),
                forall|k: int| 0 <= k < i ==> self.enemies@[k] == moved[k],
                forall|k: int| i <= k < self.enemies@.len() ==> self.enemies@[k] == start.enemies[k],
            decreases self.enemies.len() - i,
        {
            let enemy: Enemy = self.enemies[i];
            let target: Point = match enemy.kind.behavior() {
                Behavior::SeeksPlayer => player,
                Behavior::SeeksCastle => castle,
            };
            let walked = Enemy { pos: step_toward(enemy.pos, target, speed), ..enemy };
            self.enemies.set(i, walked);
            i += 1;
        }
        proof {
            assert(self.enemies@ =~= moved);
            assert(tags(self.enemies@) =~= tags(start.enemies));
        }
    }

    /// Moves every bullet one step of the configured length along its
    /// direction. A bullet without a direction stays where it is.
    pub fn update_bullets(&mut self)
        ensures
            old(self).wf() ==> final(self).wf(),
            final(self)@ == old(self)@.with_bullets_moved(),
    {
        let ghost start = self@;
        let speed: u32 = self.config.bullet_speed;
        let ghost moved = start.bullets.map_values(|b: Bullet| flown(b, speed));
        let mut i: usize = 0;
        while i < self.bullets.len()
            invariant
                i <= self.bullets.len(),
                self.bullets@.len() == start.bullets.len(),
                moved == start.bullets.map_values(|b: Bullet| flown(b, speed)),
                self@ == (WorldState { bullets: self.bullets@, ..start }),
                forall|k: int| 0 <= k < i ==> self.bullets@[k] == moved[k],
                forall|k: int| i <= k < self.bullets@.len() ==> self.bullets@[k] == start.bullets[k],
            decreases self.bullets.len() - i,
        {
            let bullet: Bullet = self.bullets[i];
            let carried = Bullet { pos: advance(bullet.pos, bullet.dir, speed), ..bullet };
            self.bullets.set(i, carried);
            i += 1;
        }
        proof {
            assert(self.bullets@ =~= moved);
            assert(tags(self.bullets@) =~= tags(start.bullets));
        }
    }

    /// Moves the player one step of the configured length along `dir`. With
    /// a zero direction, or without a player, nothing moves.
    pub fn move_player(&mut self, dir: Point)
        ensures
            old(self).wf() ==> final(self).wf(),
            final(self)@ == old(self)@.with_player_moved(dir),
    {
        match self.player {
            Some(p) => {
                let pos = advance(p.pos, dir, self.config.player_speed);
                self.player = Some(Player { pos, ..p });
            },
            None => {},
        }
    }
}

} // verus!
