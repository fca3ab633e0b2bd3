use bevy_creeps::spawning::{pick_enemy, table_total};
use bevy_creeps::{Enemy, SpawnParameters};

#[test]
fn default_parameters() {
    let p = SpawnParameters::default();
    assert_eq!(p.time_between_spawns_us, 2_000_000);
    assert_eq!(p.min_time_between_spawns_us, 300_000);
    assert_eq!(p.probability_spawn_another, 0);
    assert_eq!(p.max_probability_spawn_another, 80);
    assert_eq!(p.max_spawns, 1);
    assert_eq!(p.weight_of(Enemy::Standard), 25);
    assert_eq!(p.weight_of(Enemy::Cannon), 0);
    assert_eq!(p.weight_of(Enemy::RocketShip), 0);
}

#[test]
fn pick_walks_cumulative_weights() {
    let table = vec![(Enemy::Standard, 25), (Enemy::Cannon, 10)];
    assert_eq!(pick_enemy(&table, 1), Enemy::Standard);
    assert_eq!(pick_enemy(&table, 25), Enemy::Standard);
    assert_eq!(pick_enemy(&table, 26), Enemy::Cannon);
    assert_eq!(pick_enemy(&table, 35), Enemy::Cannon);
    assert_eq!(pick_enemy(&table, 36), Enemy::Standard);
}

#[test]
fn pick_skips_zero_weight() {
    let table = vec![(Enemy::Cannon, 0), (Enemy::Standard, 25)];
    assert_eq!(pick_enemy(&table, 1), Enemy::Standard);
    assert_eq!(pick_enemy(&vec![], 1), Enemy::Standard);
}

#[test]
fn table_total_sums() {
    let table = vec![(Enemy::Standard, 25), (Enemy::Cannon, u32::MAX), (Enemy::RocketShip, 7)];
    assert_eq!(table_total(&table), 25 + u32::MAX as u64 + 7);
}

#[test]
fn set_weight_updates_or_adds() {
    let mut p = SpawnParameters::default();
    p.set_weight(Enemy::Cannon, 3);
    assert_eq!(p.weight_of(Enemy::Cannon), 3);
    assert_eq!(p.weight_of(Enemy::Standard), 25);
    p.set_weight(Enemy::Standard, 4);
    assert_eq!(p.weight_of(Enemy::Standard), 4);
    assert_eq!(p.weight_of(Enemy::Cannon), 3);
}

#[test]
fn weighted_draw_never_returns_zero_weight() {
    let mut p = SpawnParameters::default();
    p.set_weight(Enemy::Cannon, 0);
    for _ in 0..1000 {
        assert_ne!(p.draw_enemy(), Enemy::Cannon);
    }
}

#[test]
fn empty_table_draws_standard() {
    let mut p = SpawnParameters::default();
    p.set_weight(Enemy::Standard, 0);
    assert_eq!(p.draw_enemy(), Enemy::Standard);
    p.set_weight(Enemy::Cannon, 0);
    assert_eq!(p.draw_enemy(), Enemy::Standard);
}

#[test]
fn draw_from_single_kind() {
    let mut p = SpawnParameters::default();
    p.set_weight(Enemy::Standard, 0);
    p.set_weight(Enemy::RocketShip, 5);
    for _ in 0..100 {
        assert_eq!(p.draw_enemy(), Enemy::RocketShip);
    }
}

#[test]
fn weight_of_reads_table() {
    let mut p = SpawnParameters::default();
    assert_eq!(p.weight_of(Enemy::Standard), 25);
    assert_eq!(p.weight_of(Enemy::Cannon), 0);
    p.set_weight(Enemy::Cannon, 9);
    assert_eq!(p.weight_of(Enemy::Cannon), 9);
}

#[test]
fn one_difficulty_step() {
    let mut p = SpawnParameters::default();
    p.increase_difficulty(1);
    assert_eq!(p.probability_spawn_another, 3);
    assert_eq!(p.time_between_spawns_us, 1_990_000);
    assert_eq!(p.max_spawns, 1);
    assert_eq!(p.weight_of(Enemy::Cannon), 0);
    assert_eq!(p.weight_of(Enemy::RocketShip), 0);
    assert_eq!(p.weight_of(Enemy::Standard), 25);
    p.increase_difficulty(30);
    assert_eq!(p.probability_spawn_another, 6);
    assert_eq!(p.time_between_spawns_us, 1_980_000);
    assert_eq!(p.max_spawns, 2);
    assert_eq!(p.weight_of(Enemy::Cannon), 3);
    assert_eq!(p.weight_of(Enemy::RocketShip), 2);
}

#[test]
fn difficulty_is_monotone_and_saturates() {
    let mut p = SpawnParameters::default();
    let mut prob = p.probability_spawn_another;
    let mut time = p.time_between_spawns_us;
    let mut spawns = p.max_spawns;
    for score in 1..=10_000u32 {
        p.increase_difficulty(score);
        assert!(p.probability_spawn_another >= prob);
        assert!(p.time_between_spawns_us <= time);
        assert!(p.max_spawns >= spawns);
        assert!(p.time_between_spawns_us >= p.min_time_between_spawns_us);
        assert!(p.probability_spawn_another <= p.max_probability_spawn_another);
        prob = p.probability_spawn_another;
        time = p.time_between_spawns_us;
        spawns = p.max_spawns;
    }
    assert_eq!(p.time_between_spawns_us, p.min_time_between_spawns_us);
    assert_eq!(p.probability_spawn_another, p.max_probability_spawn_another);
    assert_eq!(p.max_spawns, 1 + 10_000 / 30);
    assert_eq!(p.weight_of(Enemy::Cannon), 1000);
    assert_eq!(p.weight_of(Enemy::RocketShip), 666);
    assert_eq!(p.weight_of(Enemy::Standard), 25);
}

#[test]
fn pause_never_drops_below_floor_when_short() {
    let mut p = SpawnParameters::default();
    p.min_time_between_spawns_us = 0;
    p.time_between_spawns_us = 5_000;
    p.increase_difficulty(1);
    assert_eq!(p.time_between_spawns_us, 0);
}

#[test]
fn reset_restores_defaults() {
    let mut p = SpawnParameters::default();
    p.increase_difficulty(100);
    p.reset_difficulty();
    assert_eq!(p.time_between_spawns_us, 2_000_000);
    assert_eq!(p.probability_spawn_another, 0);
    assert_eq!(p.max_spawns, 1);
    assert_eq!(p.weight_of(Enemy::Standard), 25);
    assert_eq!(p.weight_of(Enemy::Cannon), 0);
    assert_eq!(p.weight_of(Enemy::RocketShip), 0);
}

#[test]
fn draws_reach_every_weighted_kind() {
    let mut p = SpawnParameters::default();
    p.set_weight(Enemy::Cannon, 25);
    let mut standard = 0;
    let mut cannon = 0;
    for _ in 0..1000 {
        match p.draw_enemy() {
            Enemy::Standard => standard += 1,
            Enemy::Cannon => cannon += 1,
            other => panic!("drew {:?}", other),
        }
    }
    assert!(standard > 0 && cannon > 0);
}
