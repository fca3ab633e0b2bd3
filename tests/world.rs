use bevy_creeps::movement::{apply_acceleration, apply_velocity, SMOOTHING_SCALE};
use bevy_creeps::kinematics::smoothing_factor;
use bevy_creeps::shooting::burst_direction;
use bevy_creeps::world::{
    spawn_single_enemy, ENEMY_DESPAWN_RADIUS, ENEMY_SPAWN_RADIUS, NANOS_PER_UNIT,
    PLAYER_MAX_SPEED, WORLD_BOUNDARY,
};
use bevy_creeps::{
    Acceleration, Creep, Enemy, Keys, Smoothing, SpawnHeading, State, TimerMode, Vec2, Velocity,
    World,
};

fn units(u: i64) -> i64 {
    u * NANOS_PER_UNIT
}

fn norm2(v: Vec2) -> i128 {
    (v.x as i128) * (v.x as i128) + (v.y as i128) * (v.y as i128)
}

fn no_keys() -> Keys {
    Keys { left: false, right: false, up: false, down: false }
}

fn standard_at(x: i64, y: i64) -> Creep {
    spawn_single_enemy(Enemy::Standard, Vec2::new(x, y), Vec2::new(-1, 0))
}

#[test]
fn new_world_starts_a_run() {
    let w = World::new();
    assert_eq!(w.state, State::Playing);
    assert_eq!(w.score.0, 0);
    assert!(w.enemies.is_empty());
    let p = w.player.unwrap();
    assert_eq!(p.position, Vec2::new(0, 0));
    assert_eq!(p.velocity, Velocity::new(Vec2::new(0, 0), PLAYER_MAX_SPEED));
    assert_eq!(w.spawn_timer.duration_us, 2_000_000);
}

#[test]
fn spawned_profiles() {
    let c = spawn_single_enemy(Enemy::Cannon, Vec2::new(1, 2), Vec2::new(0, -5));
    assert_eq!(c.velocity, Velocity::new(Vec2::new(0, -200_000), 200_000));
    assert_eq!(c.shoot_timer.unwrap().duration_us, 2_000_000);
    assert!(c.heat_seeker.is_none() && c.acceleration.is_none());
    let s = spawn_single_enemy(Enemy::RocketShip, Vec2::new(0, 0), Vec2::new(1, 0));
    assert_eq!(s.shoot_timer.unwrap().duration_us, 3_000_000);
    let r = spawn_single_enemy(Enemy::Rocket, Vec2::new(0, 0), Vec2::new(0, 1));
    let life = r.heat_seeker.unwrap();
    assert_eq!((life.duration_us, life.mode), (5_000_000, TimerMode::Once));
    assert_eq!(r.acceleration, Some(Acceleration::new(Vec2::new(0, 0), 1)));
    assert_eq!(r.velocity.value, Vec2::new(0, 450_000));
    let b = spawn_single_enemy(Enemy::Bullet, Vec2::new(0, 0), Vec2::new(3, 4));
    assert_eq!(b.velocity.value, Vec2::new(270_000, 360_000));
    assert!(b.shoot_timer.is_none());
}

#[test]
fn spawn_at_radius() {
    let mut w = World::new();
    let headings = vec![SpawnHeading { outward: Vec2::new(0, 1_000_000), course: Vec2::new(0, -1) }];
    assert_eq!(w.spawn_enemies(1_000_000, &headings), 0);
    assert!(w.enemies.is_empty());
    assert_eq!(w.spawn_enemies(1_000_000, &headings), 1);
    let c = w.enemies[0];
    assert_eq!(c.kind, Enemy::Standard);
    assert_eq!(c.position, Vec2::new(0, ENEMY_SPAWN_RADIUS as i64));
    assert_eq!(c.velocity.value, Vec2::new(0, -300_000));
    assert_eq!(w.spawn_timer.duration_us, w.spawn_parameters.time_between_spawns_us);
}

#[test]
fn spawn_distance_on_diagonal() {
    let mut w = World::new();
    let headings = vec![SpawnHeading { outward: Vec2::new(-707_107, 707_107), course: Vec2::new(1, -1) }];
    assert_eq!(w.spawn_enemies(2_000_000, &headings), 1);
    let d = norm2(w.enemies[0].position);
    let r = ENEMY_SPAWN_RADIUS as i128;
    assert!(d <= r * r);
    assert!(d >= (r - 2) * (r - 2));
    let v = norm2(w.enemies[0].velocity.value);
    assert!(v <= 300_000i128 * 300_000 && v >= 299_998i128 * 299_998);
}

#[test]
fn burst_fills_up_with_certain_chance() {
    let mut w = World::new();
    w.spawn_parameters.probability_spawn_another = 100;
    w.spawn_parameters.max_probability_spawn_another = 100;
    w.spawn_parameters.max_spawns = 3;
    let h = SpawnHeading { outward: Vec2::new(1, 0), course: Vec2::new(-1, 0) };
    let headings = vec![h, h, h, h, h];
    assert_eq!(w.spawn_enemies(2_000_000, &headings), 3);
    assert_eq!(w.enemies.len(), 3);
    let few = vec![h, h];
    assert_eq!(w.spawn_enemies(2_000_000, &few), 2);
    assert_eq!(w.spawn_enemies(2_000_000, &vec![]), 0);
}

#[test]
fn sweep_removes_far_enemies() {
    let mut w = World::new();
    w.enemies.push(standard_at(units(500), 0));
    w.enemies.push(standard_at(0, units(512)));
    w.enemies.push(standard_at(ENEMY_DESPAWN_RADIUS as i64, 0));
    w.enemies.push(standard_at(ENEMY_DESPAWN_RADIUS as i64 + 1, 0));
    w.despawn_out_of_bounds_enemies();
    let xs: Vec<i64> = w.enemies.iter().map(|c| c.position.x).collect();
    assert_eq!(xs, vec![units(500), ENEMY_DESPAWN_RADIUS as i64]);
}

#[test]
fn despawn_all() {
    let mut w = World::new();
    w.enemies.push(standard_at(0, 0));
    w.despawn_all_enemies();
    assert!(w.enemies.is_empty());
}

#[test]
fn collision_overlap_ends_run() {
    let mut w = World::new();
    w.enemies.push(standard_at(units(15), 0));
    w.collide();
    assert_eq!(w.state, State::GameOver);
}

#[test]
fn collision_apart_keeps_playing() {
    let mut w = World::new();
    w.enemies.push(standard_at(units(25), 0));
    w.collide();
    assert_eq!(w.state, State::Playing);
}

#[test]
fn collision_touching_counts() {
    let mut w = World::new();
    w.enemies.push(standard_at(units(20), units(20)));
    w.collide();
    assert_eq!(w.state, State::GameOver);
}

#[test]
fn collision_needs_a_player() {
    let mut w = World::new();
    w.player = None;
    w.enemies.push(standard_at(0, 0));
    w.collide();
    assert_eq!(w.state, State::Playing);
}

#[test]
fn reset_twice_matches_once() {
    let mut w = World::new();
    w.spawn_parameters.increase_difficulty(100);
    w.score.0 = 42;
    w.enemies.push(standard_at(0, 0));
    w.state = State::GameOver;
    w.enter_playing();
    let settings = |w: &World| {
        let p = &w.spawn_parameters;
        (
            p.time_between_spawns_us,
            p.probability_spawn_another,
            p.max_spawns,
            p.weight_of(Enemy::Standard),
            p.weight_of(Enemy::Cannon),
            p.weight_of(Enemy::RocketShip),
        )
    };
    let first = (settings(&w), w.score, w.player, w.enemies.len());
    w.enter_playing();
    let second = (settings(&w), w.score, w.player, w.enemies.len());
    assert_eq!(first, second);
    assert_eq!(w.score.0, 0);
    assert!(w.player.is_some());
    assert!(w.enemies.is_empty());
    assert_eq!(w.spawn_parameters.time_between_spawns_us, 2_000_000);
    assert_eq!(w.state, State::Playing);
}

#[test]
fn rocket_expires_after_lifetime() {
    let mut w = World::new();
    w.enemies.push(spawn_single_enemy(Enemy::Rocket, Vec2::new(units(900), 0), Vec2::new(1, 0)));
    w.enemies.push(standard_at(units(-900), 0));
    w.handle_heatseeker_destruction(4_000_000);
    assert_eq!(w.enemies.len(), 2);
    assert_eq!(w.enemies[0].heat_seeker.unwrap().elapsed_us, 4_000_000);
    w.handle_heatseeker_destruction(1_000_000);
    assert_eq!(w.enemies.len(), 1);
    assert_eq!(w.enemies[0].kind, Enemy::Standard);
}

#[test]
fn rocket_reaims_each_tick() {
    let mut w = World::new();
    w.enemies.push(spawn_single_enemy(Enemy::Rocket, Vec2::new(units(100), 0), Vec2::new(1, 0)));
    w.handle_heatseeker_acceleration();
    assert_eq!(w.enemies[0].acceleration.unwrap().direction, Vec2::new(units(-100), 0));
    w.player.as_mut().unwrap().position = Vec2::new(units(100), units(50));
    w.handle_heatseeker_acceleration();
    assert_eq!(w.enemies[0].acceleration.unwrap().direction, Vec2::new(0, units(50)));
    w.player = None;
    w.handle_heatseeker_acceleration();
    assert_eq!(w.enemies[0].acceleration.unwrap().direction, Vec2::new(0, units(50)));
}

#[test]
fn cannon_fires_twelve_bullets() {
    let mut w = World::new();
    w.enemies.push(spawn_single_enemy(Enemy::Cannon, Vec2::new(units(10), units(20)), Vec2::new(0, 1)));
    w.handle_shooting(1_000_000);
    assert_eq!(w.enemies.len(), 1);
    w.handle_shooting(1_000_000);
    assert_eq!(w.enemies.len(), 13);
    for (j, b) in w.enemies[1..].iter().enumerate() {
        assert_eq!(b.kind, Enemy::Bullet);
        assert_eq!(b.position, Vec2::new(units(10), units(20)));
        assert!(norm2(b.velocity.value) <= 450_000i128 * 450_000);
        assert_eq!(b.velocity, spawn_single_enemy(Enemy::Bullet, b.position, burst_direction(j as u32)).velocity);
    }
    assert_eq!(w.enemies[1].velocity.value, Vec2::new(0, -450_000));
    assert_eq!(w.enemies[4].velocity.value, Vec2::new(450_000, 0));
}

#[test]
fn rocket_ship_aims_at_player() {
    let mut w = World::new();
    w.enemies.push(spawn_single_enemy(Enemy::RocketShip, Vec2::new(0, units(-300)), Vec2::new(0, 1)));
    w.handle_shooting(3_000_000);
    assert_eq!(w.enemies.len(), 2);
    assert_eq!(w.enemies[1].kind, Enemy::Rocket);
    assert_eq!(w.enemies[1].velocity.value, Vec2::new(0, 450_000));
    w.player = None;
    w.enemies[0].position = Vec2::new(units(5), units(5));
    w.handle_shooting(3_000_000);
    assert_eq!(w.enemies[2].velocity.value, Vec2::new(0, 450_000));
}

#[test]
fn steering_from_keys() {
    let mut w = World::new();
    w.player_movement(true, false, true, false);
    assert_eq!(w.player.unwrap().acceleration, Acceleration::new(Vec2::new(-1, 1), 50));
    w.player_movement(true, true, false, false);
    assert_eq!(w.player.unwrap().acceleration, Acceleration::new(Vec2::new(0, 0), 50));
}

#[test]
fn player_is_clamped() {
    let mut w = World::new();
    w.player.as_mut().unwrap().position = Vec2::new(units(600), units(-600));
    w.clamp_player();
    assert_eq!(w.player.unwrap().position, Vec2::new(WORLD_BOUNDARY, -WORLD_BOUNDARY));
    w.player.as_mut().unwrap().position = Vec2::new(units(5), 0);
    w.clamp_player();
    assert_eq!(w.player.unwrap().position, Vec2::new(units(5), 0));
}

#[test]
fn smoothing_lookup() {
    let fs = vec![Smoothing { rate: 50, factor: 200_000 }, Smoothing { rate: 1, factor: 2_000_000 }];
    assert_eq!(smoothing_factor(&fs, 50), 200_000);
    assert_eq!(smoothing_factor(&fs, 1), SMOOTHING_SCALE);
    assert_eq!(smoothing_factor(&fs, 7), 0);
}

#[test]
fn full_factor_reaches_target() {
    let mut v = Velocity::new(Vec2::new(0, 0), 300_000);
    apply_acceleration(&mut v, &Acceleration::new(Vec2::new(5, 0), 50), SMOOTHING_SCALE);
    assert_eq!(v.value, Vec2::new(300_000, 0));
    apply_acceleration(&mut v, &Acceleration::new(Vec2::new(0, 0), 50), 500_000);
    assert_eq!(v.value, Vec2::new(150_000, 0));
    apply_acceleration(&mut v, &Acceleration::new(Vec2::new(0, -1), 50), 0);
    assert_eq!(v.value, Vec2::new(150_000, 0));
}

#[test]
fn diagonal_steering_aims_at_full_speed() {
    let mut v = Velocity::new(Vec2::new(0, 0), 300_000);
    apply_acceleration(&mut v, &Acceleration::new(Vec2::new(1, 1), 50), 500_000);
    assert_eq!(v.value, Vec2::new(106_066, 106_066));
}

#[test]
fn speed_never_exceeds_max() {
    let mut v = Velocity::new(Vec2::new(0, 0), 450_000);
    let dirs = [Vec2::new(1, 0), Vec2::new(-3, 7), Vec2::new(0, -1), Vec2::new(1, 1), Vec2::new(0, 0)];
    for step in 0..2000u32 {
        let d = dirs[(step % 5) as usize];
        let alpha = (step * 7919) % (SMOOTHING_SCALE + 1);
        apply_acceleration(&mut v, &Acceleration::new(d, 1), alpha);
        assert!(norm2(v.value) <= 450_000i128 * 450_000);
    }
}

#[test]
fn velocity_moves_position() {
    let mut p = Vec2::new(0, 0);
    apply_velocity(&mut p, &Velocity::new(Vec2::new(1_000, -2_000), 3_000), 1_000_000);
    assert_eq!(p, Vec2::new(units(1), units(-2)));
    let mut q = Vec2::new(i64::MAX - 1, 0);
    apply_velocity(&mut q, &Velocity::new(Vec2::new(1_000, 0), 1_000), 1_000_000);
    assert_eq!(q, Vec2::new(i64::MAX, 0));
}

#[test]
fn score_rises_each_second() {
    let mut w = World::new();
    assert_eq!(w.update_score(600_000), None);
    assert_eq!(w.update_score(600_000), Some(1));
    assert_eq!(w.score.0, 1);
    w.score.0 = u32::MAX;
    assert_eq!(w.update_score(1_000_000), None);
    assert_eq!(w.score.0, u32::MAX);
}

#[test]
fn restart_only_after_game_over() {
    let mut w = World::new();
    w.score.0 = 5;
    w.check_restart(true);
    assert_eq!(w.score.0, 5);
    w.state = State::GameOver;
    w.check_restart(false);
    assert_eq!(w.state, State::GameOver);
    w.check_restart(true);
    assert_eq!(w.state, State::Playing);
    assert_eq!(w.score.0, 0);
}

#[test]
fn ticks_run_a_game() {
    let mut w = World::new();
    let fs = vec![Smoothing { rate: 50, factor: 541_000 }, Smoothing { rate: 1, factor: 15_500 }];
    let headings = vec![SpawnHeading { outward: Vec2::new(0, 1_000_000), course: Vec2::new(0, -1_000_000) }];
    let mut ticks = 0;
    while w.state == State::Playing && ticks < 2000 {
        w.tick(15_625, no_keys(), &fs, &headings);
        ticks += 1;
        for c in &w.enemies {
            assert!(norm2(c.position) <= (ENEMY_DESPAWN_RADIUS as i128) * (ENEMY_DESPAWN_RADIUS as i128));
            assert!(norm2(c.velocity.value) <= (c.velocity.max as i128) * (c.velocity.max as i128));
        }
    }
    assert_eq!(w.state, State::GameOver);
    assert!(w.score.0 >= 1);
    let frozen = (w.score, w.enemies.len(), w.player);
    w.tick(15_625, no_keys(), &fs, &headings);
    assert_eq!(frozen, (w.score, w.enemies.len(), w.player));
}

#[test]
fn held_key_moves_player() {
    let mut w = World::new();
    let fs = vec![Smoothing { rate: 50, factor: 541_000 }];
    let keys = Keys { left: false, right: true, up: false, down: false };
    for _ in 0..64 {
        w.tick(15_625, keys, &fs, &vec![]);
    }
    let p = w.player.unwrap();
    assert!(p.position.x > 0);
    assert_eq!(p.position.y, 0);
    assert!(p.velocity.value.x <= PLAYER_MAX_SPEED as i64);
    assert!(p.velocity.value.x > 290_000);
}

#[test]
fn burst_size_varies_with_even_chance() {
    let mut w = World::new();
    w.spawn_parameters.probability_spawn_another = 50;
    w.spawn_parameters.max_spawns = 3;
    let h = SpawnHeading { outward: Vec2::new(1, 0), course: Vec2::new(-1, 0) };
    let headings = vec![h, h, h];
    let mut seen = [false; 4];
    for _ in 0..400 {
        let n = w.spawn_enemies(2_000_000, &headings);
        assert!((1..=3).contains(&n));
        seen[n as usize] = true;
    }
    assert!(seen[1] && seen[2] && seen[3]);
}

#[test]
fn no_rocket_outlives_its_lifetime() {
    let mut w = World::new();
    for k in 0..5i64 {
        let mut r = spawn_single_enemy(Enemy::Rocket, Vec2::new(units(10 * k), 0), Vec2::new(1, 0));
        r.heat_seeker.as_mut().unwrap().elapsed_us = (k as u64) * 1_000_000;
        w.enemies.push(r);
    }
    w.enemies.push(standard_at(0, units(100)));
    w.handle_heatseeker_destruction(2_500_000);
    assert_eq!(w.enemies.len(), 4);
    for c in &w.enemies {
        if let Some(t) = c.heat_seeker {
            assert!(t.elapsed_us < t.duration_us);
        }
    }
}
