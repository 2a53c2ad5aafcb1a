use hell_game::actors::{Enemy, EnemyType, Health};
use hell_game::config::Config;
use hell_game::geometry::Point;
use hell_game::population::{spawn_count, SpawnSite};
use hell_game::world::World;

fn p(x: i32, y: i32) -> Point {
    Point { x, y }
}

fn site(x: i32, y: i32, kind: EnemyType) -> SpawnSite {
    SpawnSite { offset: p(x, y), kind }
}

#[test]
fn spawn_count_is_the_batch_while_there_is_room() {
    assert_eq!(spawn_count(20, 0, 2), 2);
    assert_eq!(spawn_count(20, 18, 2), 2);
    assert_eq!(spawn_count(20, 5, 0), 0);
}

#[test]
fn spawn_count_is_cut_to_the_room_that_is_left() {
    assert_eq!(spawn_count(20, 19, 2), 1);
    assert_eq!(spawn_count(20, 15, 100), 5);
    assert_eq!(spawn_count(usize::MAX, 0, usize::MAX), usize::MAX);
}

#[test]
fn spawn_count_is_zero_at_or_above_the_cap() {
    assert_eq!(spawn_count(20, 20, 2), 0);
    assert_eq!(spawn_count(20, 21, 2), 0);
    assert_eq!(spawn_count(0, 0, 2), 0);
    assert_eq!(spawn_count(0, usize::MAX, usize::MAX), 0);
}

#[test]
fn nothing_is_spawned_without_a_player() {
    let mut world = World::new(Config::default());
    assert_eq!(world.spawn_budget(), 0);
    assert_eq!(world.spawn_wave(&vec![site(1_000_000, 0, EnemyType::Red)]), 0);
    assert!(world.spawn_enemies(&vec![p(1_000_000, 0), p(0, 1_000_000)]).is_empty());
    assert_eq!(world.enemy_count(), 0);
}

#[test]
fn wave_places_each_enemy_relative_to_the_player() {
    let mut world = World::new(Config::default());
    world.spawn_player(p(200_000, -50_000));
    assert_eq!(world.spawn_budget(), 2);
    let sites = vec![
        site(3_000_000, 0, EnemyType::Green),
        site(0, -1_000_000, EnemyType::Skin),
        site(5, 5, EnemyType::Red),
    ];
    assert_eq!(world.spawn_wave(&sites), 2);
    assert_eq!(
        world.enemies(),
        &vec![
            Enemy { id: 0, pos: p(3_200_000, -50_000), health: Health(10), kind: EnemyType::Green },
            Enemy { id: 1, pos: p(200_000, -1_050_000), health: Health(10), kind: EnemyType::Skin },
        ]
    );
}

#[test]
fn wave_is_no_longer_than_the_sites_offered() {
    let mut config = Config::default();
    config.spawn_batch = 5;
    let mut world = World::new(config);
    world.spawn_player(p(0, 0));
    assert_eq!(world.spawn_wave(&vec![site(1, 1, EnemyType::Red)]), 1);
    assert_eq!(world.spawn_wave(&Vec::new()), 0);
    assert_eq!(world.enemy_count(), 1);
}

#[test]
fn wave_stops_at_the_edge_of_the_grid() {
    let mut world = World::new(Config::default());
    world.spawn_player(p(i32::MAX - 10, i32::MIN + 10));
    assert_eq!(world.spawn_wave(&vec![site(5_000_000, -5_000_000, EnemyType::Red)]), 1);
    assert_eq!(world.enemies()[0].pos, p(i32::MAX, i32::MIN));
}

#[test]
fn population_never_exceeds_the_cap_over_many_spawn_ticks() {
    let mut config = Config::default();
    config.max_enemies = 7;
    config.spawn_batch = 3;
    let mut world = World::new(config);
    world.spawn_player(p(0, 0));
    let offsets = vec![p(1_000_000, 0), p(0, 1_000_000), p(-1_000_000, 0), p(0, -1_000_000)];
    let mut sizes: Vec<usize> = Vec::new();
    for _ in 0..6 {
        sizes.push(world.spawn_enemies(&offsets).len());
        assert!(world.enemy_count() <= 7);
    }
    assert_eq!(sizes, vec![3, 3, 1, 0, 0, 0]);
    assert_eq!(world.enemy_count(), 7);
    assert_eq!(world.spawn_budget(), 0);
}

#[test]
fn spawn_tick_reports_the_sites_it_used() {
    let mut world = World::new(Config::default());
    world.spawn_player(p(10, 20));
    let offsets = vec![p(1_000_000, 0), p(0, 2_000_000), p(-3_000_000, 0)];
    let wave = world.spawn_enemies(&offsets);
    assert_eq!(wave.len(), 2);
    assert_eq!(wave[0].offset, p(1_000_000, 0));
    assert_eq!(wave[1].offset, p(0, 2_000_000));
    assert_eq!(world.enemy_count(), 2);
    for (i, e) in world.enemies().iter().enumerate() {
        assert_eq!(e.id, i as u64);
        assert_eq!(e.kind, wave[i].kind);
        assert_eq!(e.health, Health(10));
        assert_eq!(e.pos, p(10 + wave[i].offset.x, 20 + wave[i].offset.y));
    }
}

#[test]
fn population_is_topped_up_after_deaths() {
    let mut config = Config::default();
    config.max_enemies = 2;
    config.spawn_batch = 2;
    config.enemy_health = 1;
    let mut world = World::new(config);
    world.spawn_player(p(0, 0));
    let offsets = vec![p(1_000_000, 0), p(2_000_000, 0)];
    assert_eq!(world.spawn_enemies(&offsets).len(), 2);
    assert_eq!(world.spawn_enemies(&offsets).len(), 0);
    world.spawn_bullet(p(1_000_000, 0), p(1, 0));
    world.resolution_tick();
    assert_eq!(world.despawn_dead_enemies(), 1);
    assert_eq!(world.spawn_budget(), 1);
    assert_eq!(world.spawn_enemies(&offsets).len(), 1);
    assert_eq!(world.enemy_count(), 2);
}
