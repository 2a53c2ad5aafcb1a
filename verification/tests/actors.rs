use hell_game::actors::{Behavior, EnemyType, Health};
use hell_game::config::Config;

#[test]
fn health_at_or_below_zero_is_dead() {
    assert!(!Health(1).is_dead());
    assert!(Health(0).is_dead());
    assert!(Health(-5).is_dead());
}

#[test]
fn health_reads_never_show_less_than_zero() {
    assert_eq!(Health(97).current(), 97);
    assert_eq!(Health(0).current(), 0);
    assert_eq!(Health(-5).current(), 0);
    assert_eq!(Health(i64::MIN).current(), 0);
    assert_eq!(Health(i64::MAX).current(), i64::MAX as u64);
}

#[test]
fn damage_is_subtracted_once_per_hit() {
    assert_eq!(Health(100).damaged(1, 3), Health(97));
    assert_eq!(Health(10).damaged(15, 1), Health(-5));
    assert_eq!(Health(10).damaged(15, 0), Health(10));
    assert_eq!(Health(10).damaged(0, 1_000), Health(10));
    assert_eq!(Health(0).damaged(7, 2), Health(-14));
}

#[test]
fn health_stops_falling_at_the_smallest_value() {
    assert_eq!(Health(i64::MIN + 3).damaged(1, 3), Health(i64::MIN));
    assert_eq!(Health(i64::MIN + 3).damaged(1, 4), Health(i64::MIN));
    assert_eq!(Health(i64::MAX).damaged(u32::MAX, usize::MAX), Health(i64::MIN));
    assert_eq!(Health(i64::MIN).damaged(1, 1), Health(i64::MIN));
}

#[test]
fn archetypes_are_numbered_green_red_skin() {
    assert_eq!(EnemyType::from_index(0), EnemyType::Green);
    assert_eq!(EnemyType::from_index(1), EnemyType::Red);
    assert_eq!(EnemyType::from_index(2), EnemyType::Skin);
    assert_eq!(EnemyType::from_index(3), EnemyType::Skin);
    assert_eq!(EnemyType::from_index(u32::MAX), EnemyType::Skin);
}

#[test]
fn base_sprite_indices_match_the_sprite_sheet() {
    assert_eq!(EnemyType::Green.get_base_sprite_index(), 8);
    assert_eq!(EnemyType::Red.get_base_sprite_index(), 12);
    assert_eq!(EnemyType::Skin.get_base_sprite_index(), 20);
}

#[test]
fn green_enemies_hunt_the_player_and_the_others_the_castle() {
    assert_eq!(EnemyType::Green.behavior(), Behavior::SeeksPlayer);
    assert_eq!(EnemyType::Red.behavior(), Behavior::SeeksCastle);
    assert_eq!(EnemyType::Skin.behavior(), Behavior::SeeksCastle);
}

#[test]
fn random_archetypes_cover_all_three_kinds() {
    let mut green = 0;
    let mut red = 0;
    let mut skin = 0;
    for _ in 0..600 {
        match EnemyType::get_rand_enemy() {
            EnemyType::Green => green += 1,
            EnemyType::Red => red += 1,
            EnemyType::Skin => skin += 1,
        }
    }
    assert_eq!(green + red + skin, 600);
    assert!(green > 0);
    assert!(red > 0);
    assert!(skin > 0);
}

#[test]
fn default_configuration_holds_the_default_constants() {
    let config = Config::default();
    assert_eq!(config.max_enemies, 20);
    assert_eq!(config.spawn_batch, 2);
    assert_eq!(config.enemy_speed, 1_500);
    assert_eq!(config.player_speed, 4_000);
    assert_eq!(config.bullet_speed, 20_000);
    assert_eq!(config.enemy_health, 10);
    assert_eq!(config.player_health, 100);
    assert_eq!(config.castle_health, 1_000);
    assert_eq!(config.enemy_damage, 1);
    assert_eq!(config.bullet_damage, 15);
    assert_eq!(config.bullet_radius, 25_000);
    assert_eq!(config.player_enemy_radius, 40_000);
    assert_eq!(config.player_gold_radius, 60_000);
    assert_eq!(config.castle_enemy_radius, 40_000);
    assert_eq!(config.gold_value, 1);
}
