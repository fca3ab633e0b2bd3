use bevy_creeps::geometry::{floor_sqrt, offset_to, reduce, scale_to};
use bevy_creeps::{Color, Enemy, Timer, TimerMode, Vec2};

#[test]
fn enemy_sizes() {
    assert_eq!(Enemy::Standard.size(), 20);
    assert_eq!(Enemy::Bullet.size(), 10);
    assert_eq!(Enemy::Rocket.size(), 10);
    assert_eq!(Enemy::Cannon.size(), 40);
    assert_eq!(Enemy::RocketShip.size(), 40);
}

#[test]
fn enemy_speeds() {
    assert_eq!(Enemy::Standard.speed(), 300);
    assert_eq!(Enemy::Bullet.speed(), 450);
    assert_eq!(Enemy::Rocket.speed(), 450);
    assert_eq!(Enemy::Cannon.speed(), 200);
    assert_eq!(Enemy::RocketShip.speed(), 200);
}

#[test]
fn enemy_colors() {
    assert_eq!(Enemy::Standard.color(), Color { r: 50, g: 0, b: 0 });
    assert_eq!(Enemy::Bullet.color(), Color { r: 50, g: 25, b: 0 });
    assert_eq!(Enemy::Cannon.color(), Color { r: 25, g: 0, b: 50 });
    assert_eq!(Enemy::Rocket.color(), Color { r: 0, g: 50, b: 0 });
    assert_eq!(Enemy::RocketShip.color(), Color { r: 0, g: 25, b: 50 });
}

#[test]
fn floor_sqrt_values() {
    assert_eq!(floor_sqrt(0), 0);
    assert_eq!(floor_sqrt(1), 1);
    assert_eq!(floor_sqrt(2), 1);
    assert_eq!(floor_sqrt(16), 4);
    assert_eq!(floor_sqrt(17), 4);
    assert_eq!(floor_sqrt(1_000_000_000_000), 1_000_000);
    assert_eq!(floor_sqrt(u128::MAX), (1u128 << 64) - 1);
}

#[test]
fn reduce_long_directions() {
    assert_eq!(reduce(Vec2::new(3, -4)), Vec2::new(3, -4));
    assert_eq!(reduce(Vec2::new(1 << 33, -(1 << 32))), Vec2::new(1_717_986_918, -858_993_459));
    let r = reduce(Vec2::new(i64::MIN, 1));
    assert!(r.x != 0 && r.x.abs() <= 1 << 31 && r.y == 0);
}

#[test]
fn scale_to_values() {
    assert_eq!(scale_to(Vec2::new(3, 4), 10), Vec2::new(6, 8));
    assert_eq!(scale_to(Vec2::new(-3, 4), 10), Vec2::new(-6, 8));
    assert_eq!(scale_to(Vec2::new(1, 1), 10), Vec2::new(7, 7));
    assert_eq!(scale_to(Vec2::new(1, 1), 300_000), Vec2::new(212_132, 212_132));
    assert_eq!(scale_to(Vec2::new(-1, 0), 300_000), Vec2::new(-300_000, 0));
    assert_eq!(scale_to(Vec2::new(0, 0), 10), Vec2::new(0, 0));
    assert_eq!(
        scale_to(Vec2::new(0, -1_000_000), 1_010_000_000_000),
        Vec2::new(0, -1_010_000_000_000)
    );
    let r = scale_to(Vec2::new(i64::MIN, i64::MAX), 300_000);
    let n = (r.x as i128) * (r.x as i128) + (r.y as i128) * (r.y as i128);
    assert!(n <= 300_000i128 * 300_000);
    assert!(n >= 299_998i128 * 299_998);
    for (x, y) in [(1, 2), (-7, 3), (5, 5), (1_000_000, -1), (123_456_789_012, 987_654_321)] {
        let r = scale_to(Vec2::new(x, y), 510_000_000_000);
        let n = (r.x as i128) * (r.x as i128) + (r.y as i128) * (r.y as i128);
        let len = 510_000_000_000i128;
        assert!(n <= len * len && n >= (len - 2) * (len - 2));
    }
}

#[test]
fn offset_saturates() {
    assert_eq!(offset_to(Vec2::new(1, 2), Vec2::new(4, -2)), Vec2::new(3, -4));
    assert_eq!(
        offset_to(Vec2::new(i64::MIN, 0), Vec2::new(i64::MAX, 0)),
        Vec2::new(i64::MAX, 0)
    );
}

#[test]
fn repeating_timer_keeps_remainder() {
    let mut t = Timer::new(1_000_000, TimerMode::Repeating);
    assert!(!t.tick(400_000));
    assert_eq!(t.elapsed_us, 400_000);
    assert!(t.tick(700_000));
    assert_eq!(t.elapsed_us, 100_000);
    assert!(t.tick(2_900_000));
    assert_eq!(t.elapsed_us, 0);
}

#[test]
fn once_timer_stops_at_duration() {
    let mut t = Timer::new(5_000_000, TimerMode::Once);
    assert!(!t.tick(4_999_999));
    assert_eq!(t.elapsed_us, 4_999_999);
    assert!(t.tick(6_000_000));
    assert_eq!(t.elapsed_us, 5_000_000);
    assert!(t.tick(0));
    assert_eq!(t.elapsed_us, 5_000_000);
}

#[test]
fn timer_reset_and_duration() {
    let mut t = Timer::new(1_000_000, TimerMode::Repeating);
    t.tick(500_000);
    t.reset();
    assert_eq!(t.elapsed_us, 0);
    t.set_duration(300_000);
    assert_eq!(t.duration_us, 300_000);
    assert!(t.tick(300_000));
}
