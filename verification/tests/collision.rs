use hell_game::actors::{Enemy, EnemyType, Health};
use hell_game::bullets::pick_target;
use hell_game::collision::snapshot_of;
use hell_game::config::Config;
use hell_game::events::{
    CastleEnemyCollisionEvent, PlayerEnemyCollisionEvent, PlayerGoldCollisionEvent,
};
use hell_game::geometry::Point;
use hell_game::index::IndexedPoint;
use hell_game::world::World;

fn p(x: i32, y: i32) -> Point {
    Point { x, y }
}

fn at(x: i32, y: i32, id: u64) -> IndexedPoint {
    IndexedPoint { pos: p(x, y), id }
}

fn enemy(id: u64, x: i32, y: i32) -> Enemy {
    Enemy { id, pos: p(x, y), health: Health(10), kind: EnemyType::Red }
}

fn sorted_ids(found: &Vec<IndexedPoint>) -> Vec<u64> {
    let mut ids: Vec<u64> = found.iter().map(|q| q.id).collect();
    ids.sort();
    ids
}

#[test]
fn snapshot_tags_each_position_with_its_identity() {
    let enemies = vec![enemy(4, 1, 2), enemy(9, -3, 7)];
    assert_eq!(snapshot_of(&enemies), vec![at(1, 2, 4), at(-3, 7, 9)]);
    assert_eq!(snapshot_of(&Vec::<Enemy>::new()), Vec::<IndexedPoint>::new());
}

#[test]
fn target_is_the_first_candidate_that_is_still_alive() {
    let enemies = vec![enemy(1, 0, 0), enemy(2, 0, 0), enemy(3, 0, 0)];
    assert_eq!(pick_target(&vec![at(0, 0, 3), at(0, 0, 1)], &enemies), Some(2));
    assert_eq!(pick_target(&vec![at(0, 0, 1), at(0, 0, 3)], &enemies), Some(0));
    assert_eq!(pick_target(&vec![at(0, 0, 8), at(0, 0, 2), at(0, 0, 1)], &enemies), Some(1));
}

#[test]
fn no_target_without_a_living_candidate() {
    let enemies = vec![enemy(1, 0, 0)];
    assert_eq!(pick_target(&vec![at(0, 0, 5), at(0, 0, 6)], &enemies), None);
    assert_eq!(pick_target(&Vec::new(), &enemies), None);
    assert_eq!(pick_target(&vec![at(0, 0, 1)], &Vec::new()), None);
}

#[test]
fn index_is_a_snapshot_until_it_is_rebuilt() {
    let mut world = World::new(Config::default());
    world.spawn_enemy(p(10, 10), EnemyType::Red);
    assert!(world.enemies_near(p(10, 10), 5).is_empty());
    world.update_enemy_kd_tree();
    assert_eq!(world.enemies_near(p(10, 10), 5), vec![at(10, 10, 0)]);
    world.spawn_enemy(p(11, 11), EnemyType::Red);
    assert_eq!(world.enemies_near(p(10, 10), 5), vec![at(10, 10, 0)]);
    world.update_enemy_kd_tree();
    assert_eq!(sorted_ids(&world.enemies_near(p(10, 10), 5)), vec![0, 1]);
}

#[test]
fn gold_index_is_rebuilt_apart_from_the_enemy_index() {
    let mut world = World::new(Config::default());
    world.spawn_enemy(p(0, 0), EnemyType::Red);
    world.spawn_gold(p(0, 0));
    world.update_gold_kd_tree();
    assert!(world.enemies_near(p(0, 0), 10).is_empty());
    assert_eq!(world.gold_near(p(0, 0), 10), vec![at(0, 0, 1)]);
    world.update_enemy_kd_tree();
    assert_eq!(world.enemies_near(p(0, 0), 10), vec![at(0, 0, 0)]);
}

#[test]
fn bullet_hits_exactly_one_of_several_enemies_in_reach() {
    let mut world = World::new(Config::default());
    for i in 0..4 {
        world.spawn_enemy(p(1_000 * i, 0), EnemyType::Red);
    }
    let bullet = world.spawn_bullet(p(0, 0), p(1, 0)).unwrap();
    assert_eq!(bullet, 4);
    world.update_enemy_kd_tree();
    let hits = world.handle_enemy_bullet_collision();
    assert_eq!(hits.len(), 1);
    let victim = hits[0].unwrap();
    assert!(victim < 4);
    assert!(world.bullets().is_empty());
    let mut hurt = 0;
    for e in world.enemies().iter() {
        if e.id == victim {
            assert_eq!(e.health, Health(-5));
            hurt += 1;
        } else {
            assert_eq!(e.health, Health(10));
        }
    }
    assert_eq!(hurt, 1);
    assert_eq!(world.enemy_count(), 4);
}

#[test]
fn bullet_out_of_reach_flies_on() {
    let mut world = World::new(Config::default());
    world.spawn_enemy(p(25_001, 0), EnemyType::Red);
    world.spawn_bullet(p(0, 0), p(1, 0));
    world.update_enemy_kd_tree();
    assert_eq!(world.handle_enemy_bullet_collision(), vec![None]);
    assert_eq!(world.bullets().len(), 1);
    assert_eq!(world.enemies()[0].health, Health(10));
}

#[test]
fn bullet_hits_an_enemy_exactly_at_the_edge_of_its_reach() {
    let mut world = World::new(Config::default());
    world.spawn_enemy(p(15_000, 20_000), EnemyType::Red);
    world.spawn_bullet(p(0, 0), p(1, 0));
    world.update_enemy_kd_tree();
    assert_eq!(world.handle_enemy_bullet_collision(), vec![Some(0)]);
    assert!(world.bullets().is_empty());
    assert_eq!(world.enemies()[0].health, Health(-5));
}

#[test]
fn each_bullet_is_resolved_on_its_own() {
    let mut world = World::new(Config::default());
    world.spawn_enemy(p(0, 0), EnemyType::Red);
    world.spawn_enemy(p(500_000, 0), EnemyType::Red);
    world.spawn_bullet(p(100, 0), p(1, 0));
    world.spawn_bullet(p(250_000, 0), p(1, 0));
    world.spawn_bullet(p(500_100, 0), p(1, 0));
    world.spawn_bullet(p(-100, 0), p(1, 0));
    world.update_enemy_kd_tree();
    let hits = world.handle_enemy_bullet_collision();
    assert_eq!(hits, vec![Some(0), None, Some(1), Some(0)]);
    assert_eq!(world.bullets().len(), 1);
    assert_eq!(world.bullets()[0].id, 3);
    assert_eq!(world.enemies()[0].health, Health(-20));
    assert_eq!(world.enemies()[1].health, Health(-5));
}

#[test]
fn bullet_passes_over_an_enemy_that_the_index_still_holds_but_is_gone() {
    let mut config = Config::default();
    config.enemy_health = 0;
    let mut world = World::new(config);
    world.spawn_enemy(p(0, 0), EnemyType::Red);
    world.update_enemy_kd_tree();
    assert_eq!(world.despawn_dead_enemies(), 1);
    world.spawn_bullet(p(0, 0), p(1, 0));
    assert_eq!(world.enemies_near(p(0, 0), 10), vec![at(0, 0, 0)]);
    assert_eq!(world.handle_enemy_bullet_collision(), vec![None]);
    assert_eq!(world.bullets().len(), 1);
}

#[test]
fn bullets_do_nothing_without_enemies_or_without_bullets() {
    let mut world = World::new(Config::default());
    assert_eq!(world.handle_enemy_bullet_collision(), Vec::<Option<u64>>::new());
    world.spawn_bullet(p(0, 0), p(1, 0));
    world.update_enemy_kd_tree();
    assert_eq!(world.handle_enemy_bullet_collision(), vec![None]);
    assert_eq!(world.bullets().len(), 1);
}

#[test]
fn every_enemy_in_reach_of_the_player_queues_one_contact() {
    let mut world = World::new(Config::default());
    world.spawn_player(p(0, 0));
    world.spawn_enemy(p(40_000, 0), EnemyType::Red);
    world.spawn_enemy(p(0, -39_999), EnemyType::Green);
    world.spawn_enemy(p(40_001, 0), EnemyType::Skin);
    world.update_enemy_kd_tree();
    let found = world.handle_enemy_player_collision();
    assert_eq!(sorted_ids(&found), vec![0, 1]);
    let queued: Vec<PlayerEnemyCollisionEvent> =
        found.iter().map(|q| PlayerEnemyCollisionEvent { enemy: q.id }).collect();
    assert_eq!(world.pending_player_contacts(), &queued);
    // Contact is continuous: the next tick queues the same contacts again.
    world.handle_enemy_player_collision();
    assert_eq!(world.pending_player_contacts().len(), 4);
}

#[test]
fn no_contact_is_queued_without_a_player() {
    let mut world = World::new(Config::default());
    world.spawn_enemy(p(0, 0), EnemyType::Red);
    world.update_enemy_kd_tree();
    assert!(world.handle_enemy_player_collision().is_empty());
    assert!(world.pending_player_contacts().is_empty());
}

#[test]
fn every_enemy_in_reach_of_the_castle_queues_one_contact() {
    let mut world = World::new(Config::default());
    world.spawn_castle(p(1_000, 1_000));
    world.spawn_enemy(p(1_000, 41_000), EnemyType::Red);
    world.spawn_enemy(p(1_000, 41_001), EnemyType::Red);
    world.update_enemy_kd_tree();
    let found = world.handle_enemy_castle_collision();
    assert_eq!(found, vec![at(1_000, 41_000, 0)]);
    assert_eq!(world.pending_castle_contacts(), &vec![CastleEnemyCollisionEvent { enemy: 0 }]);
    assert!(world.pending_player_contacts().is_empty());
}

#[test]
fn no_contact_is_queued_without_a_castle() {
    let mut world = World::new(Config::default());
    world.spawn_player(p(0, 0));
    world.spawn_enemy(p(0, 0), EnemyType::Red);
    world.update_enemy_kd_tree();
    assert!(world.handle_enemy_castle_collision().is_empty());
    assert!(world.pending_castle_contacts().is_empty());
}

#[test]
fn gold_in_reach_is_picked_up_and_gone_at_once() {
    let mut world = World::new(Config::default());
    world.spawn_player(p(0, 0));
    world.spawn_gold(p(60_000, 0));
    world.spawn_gold(p(60_001, 0));
    world.spawn_gold(p(-100, 100));
    world.update_gold_kd_tree();
    let found = world.handle_gold_player_collision();
    assert_eq!(sorted_ids(&found), vec![0, 2]);
    assert_eq!(world.gold().len(), 1);
    assert_eq!(world.gold()[0].id, 1);
    let queued: Vec<PlayerGoldCollisionEvent> =
        found.iter().map(|q| PlayerGoldCollisionEvent { gold: q.id, value: 1 }).collect();
    assert_eq!(world.pending_pickups(), &queued);
}

#[test]
fn gold_is_picked_up_once_even_when_the_stale_index_is_asked_again() {
    let mut world = World::new(Config::default());
    world.spawn_player(p(0, 0));
    world.spawn_gold(p(10, 10));
    world.update_gold_kd_tree();
    assert_eq!(world.handle_gold_player_collision(), vec![at(10, 10, 0)]);
    // The index still holds the item, but the item is gone.
    assert_eq!(world.handle_gold_player_collision(), vec![at(10, 10, 0)]);
    assert_eq!(world.handle_gold_player_collision(), vec![at(10, 10, 0)]);
    assert_eq!(
        world.pending_pickups(),
        &vec![PlayerGoldCollisionEvent { gold: 0, value: 1 }]
    );
    assert!(world.gold().is_empty());
    world.handle_player_gold_collision_events();
    assert_eq!(world.gold_count(), Some(1));
}

#[test]
fn no_gold_is_picked_up_without_a_player() {
    let mut world = World::new(Config::default());
    world.spawn_gold(p(0, 0));
    world.update_gold_kd_tree();
    assert!(world.handle_gold_player_collision().is_empty());
    assert_eq!(world.gold().len(), 1);
    assert!(world.pending_pickups().is_empty());
}

#[test]
fn resolution_tick_runs_all_steps_against_fresh_indexes() {
    let mut world = World::new(Config::default());
    world.spawn_player(p(0, 0));
    world.spawn_castle(p(1_000_000, 0));
    let near_player = world.spawn_enemy(p(30_000, 0), EnemyType::Green).unwrap();
    let near_castle = world.spawn_enemy(p(1_000_000, 10_000), EnemyType::Red).unwrap();
    let far = world.spawn_enemy(p(500_000, 500_000), EnemyType::Red).unwrap();
    let bullet = world.spawn_bullet(p(1_000_000, 0), p(0, 1)).unwrap();
    let stray = world.spawn_bullet(p(-900_000, 0), p(0, 1)).unwrap();
    let coin = world.spawn_gold(p(0, 50_000)).unwrap();
    let report = world.resolution_tick();
    assert_eq!(report.hits, vec![Some(near_castle), None]);
    assert_eq!(report.player_contacts, vec![at(30_000, 0, near_player)]);
    assert_eq!(report.pickups, vec![at(0, 50_000, coin)]);
    assert_eq!(report.castle_contacts, vec![at(1_000_000, 10_000, near_castle)]);
    assert_eq!(world.bullets().len(), 1);
    assert_eq!(world.bullets()[0].id, stray);
    assert_ne!(bullet, stray);
    assert_eq!(world.enemy(near_castle).unwrap().health, Health(-5));
    assert_eq!(world.enemy(near_player).unwrap().health, Health(10));
    assert_eq!(world.enemy(far).unwrap().health, Health(10));
    assert!(world.gold().is_empty());
    assert_eq!(world.pending_player_contacts().len(), 1);
    assert_eq!(world.pending_castle_contacts().len(), 1);
    assert_eq!(world.pending_pickups().len(), 1);
}

#[test]
fn resolution_tick_on_an_empty_world_does_nothing() {
    let mut world = World::new(Config::default());
    let report = world.resolution_tick();
    assert!(report.hits.is_empty());
    assert!(report.player_contacts.is_empty());
    assert!(report.pickups.is_empty());
    assert!(report.castle_contacts.is_empty());
    assert_eq!(world.enemy_count(), 0);
}
