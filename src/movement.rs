//! The kinematics step: velocity eased toward a steering target, then
//! position advanced by velocity.
use vstd::prelude::*;
use crate::geometry::{Vec2, saturate, scale_to, scaled, lemma_scaled_within};

verus! {

/// A smoothing factor of one, in parts per million.
pub const SMOOTHING_SCALE: u32 = 1_000_000;

/// Velocity in milli-units per second, and the speed that steering aims for.
#[derive(Clone, Copy, Debug, PartialEq, Eq, Structural)]
pub struct Velocity {
    pub value: Vec2,
    pub max: u32,
}

/// Steering intent: a direction (of any length, zero for none) and how
/// quickly velocity follows it.
#[derive(Clone, Copy, Debug, PartialEq, Eq, Structural)]
pub struct Acceleration {
    pub direction: Vec2,
    pub amount: u32,
}

impl Velocity {
    pub fn new(value: Vec2, max: u32) -> (r: Velocity)
        ensures
            r.value == value,
            r.max == max,
    {
        Velocity { value, max }
    }

    /// The velocity is no faster than the speed that steering aims for.
    pub open spec fn wf(self) -> bool {
        self.value.norm2() <= self.max * self.max
    }
}

impl Acceleration {
    pub fn new(direction: Vec2, amount: u32) -> (r: Acceleration)
        ensures
            r.direction == direction,
            r.amount == amount,
    {
        Acceleration { direction, amount }
    }
}

/// `n / d`, rounded toward zero.
pub open spec fn toward_zero(n: int, d: int) -> int {
    if n >= 0 {
        n / d
    } else {
        -((-n) / d)
    }
}

/// One coordinate moved from `v` toward `t` by the fraction `alpha` (in parts
/// per million), rounded toward zero.
pub open spec fn blend(v: int, t: int, alpha: int) -> int {
    toward_zero((SMOOTHING_SCALE - alpha) * v + alpha * t, SMOOTHING_SCALE as int)
}

/// The velocity after one smoothing step toward `direction` at full speed.
pub open spec fn eased(v: Velocity, direction: Vec2, alpha: int) -> Vec2 {
    let target = scaled(direction, v.max as int);
    Vec2 {
        x: blend(v.value.x as int, target.0, alpha) as i64,
        y: blend(v.value.y as int, target.1, alpha) as i64,
    }
}

proof fn lemma_toward_zero(n: int, d: int)
    requires
        d > 0,
    ensures
        toward_zero(n, d) * toward_zero(n, d) * (d * d) <= n * n,
        -n <= toward_zero(n, d) * d <= n || n <= toward_zero(n, d) * d <= -n,
{
    let m = if n >= 0 { n } else { -n };
    let q = m / d;
    assert(0 <= q * d <= m) by (nonlinear_arith)
        requires
            q == m / d,
            d > 0,
            m >= 0,
    ;
    assert(q * q * (d * d) <= m * m) by (nonlinear_arith)
        requires
            0 <= q * d <= m,
            d > 0,
    ;
    assert(m * m == n * n) by (nonlinear_arith)
        requires
            m == n || m == -n,
    ;
    assert(toward_zero(n, d) * toward_zero(n, d) == q * q) by (nonlinear_arith)
        requires
            toward_zero(n, d) == q || toward_zero(n, d) == -q,
    ;
    if n < 0 {
        assert(toward_zero(n, d) * d == -(q * d)) by (nonlinear_arith)
            requires
                toward_zero(n, d) == -q,
        ;
    }
}

proof fn lemma_square_of_sum(e: int, b: int, v: int, a: int, t: int)
    requires
        e == b * v + a * t,
    ensures
        e * e == b * b * (v * v) + 2 * a * b * (v * t) + a * a * (t * t),
{
    let p = b * v;
    let q = a * t;
    assert(e * e == p * p + 2 * (p * q) + q * q) by (nonlinear_arith)
        requires
            e == p + q,
    ;
    assert(p * p == b * b * (v * v)) by (nonlinear_arith)
        requires
            p == b * v,
    ;
    assert(q * q == a * a * (t * t)) by (nonlinear_arith)
        requires
            q == a * t,
    ;
    assert(p * q == a * b * (v * t)) by (nonlinear_arith)
        requires
            p == b * v,
            q == a * t,
    ;
    assert(e * e == b * b * (v * v) + 2 * a * b * (v * t) + a * a * (t * t)) by (nonlinear_arith)
        requires
            e * e == p * p + 2 * (p * q) + q * q,
            p * p == b * b * (v * v),
            q * q == a * a * (t * t),
            p * q == a * b * (v * t),
    ;
}

/// Easing from a velocity within the disc of radius `m` toward a target
/// within it stays within it.
proof fn lemma_blend_within(vx: int, vy: int, tx: int, ty: int, alpha: int, m2: int)
    requires
        vx * vx + vy * vy <= m2,
        tx * tx + ty * ty <= m2,
        0 <= alpha <= SMOOTHING_SCALE,
    ensures
        blend(vx, tx, alpha) * blend(vx, tx, alpha) + blend(vy, ty, alpha) * blend(vy, ty, alpha)
            <= m2,
{
    let k = SMOOTHING_SCALE as int;
    let a = alpha;
    let b = k - alpha;
    let ex = b * vx + a * tx;
    let ey = b * vy + a * ty;
    let nv = vx * vx + vy * vy;
    let nt = tx * tx + ty * ty;
    let dot = vx * tx + vy * ty;
    lemma_square_of_sum(ex, b, vx, a, tx);
    lemma_square_of_sum(ey, b, vy, a, ty);
    vstd::arithmetic::mul::lemma_mul_is_distributive_add(b * b, vx * vx, vy * vy);
    vstd::arithmetic::mul::lemma_mul_is_distributive_add(2 * a * b, vx * tx, vy * ty);
    vstd::arithmetic::mul::lemma_mul_is_distributive_add(a * a, tx * tx, ty * ty);
    assert(ex * ex + ey * ey == b * b * nv + 2 * a * b * dot + a * a * nt);
    assert(2 * dot <= nv + nt) by (nonlinear_arith)
        requires
            nv == vx * vx + vy * vy,
            nt == tx * tx + ty * ty,
            dot == vx * tx + vy * ty,
    ;
    assert(b * b * nv <= b * b * m2) by (nonlinear_arith)
        requires
            nv <= m2,
    ;
    assert(a * a * nt <= a * a * m2) by (nonlinear_arith)
        requires
            nt <= m2,
    ;
    assert(2 * a * b * dot <= 2 * a * b * m2) by (nonlinear_arith)
        requires
            2 * dot <= nv + nt,
            nv <= m2,
            nt <= m2,
            a >= 0,
            b >= 0,
    ;
    assert(b * b * m2 + 2 * a * b * m2 + a * a * m2 == k * k * m2) by (nonlinear_arith)
        requires
            k == a + b,
    ;
    assert(ex * ex + ey * ey <= k * k * m2) by (nonlinear_arith)
        requires
            ex * ex + ey * ey == b * b * nv + 2 * a * b * dot + a * a * nt,
            b * b * nv <= b * b * m2,
            a * a * nt <= a * a * m2,
            2 * a * b * dot <= 2 * a * b * m2,
            b * b * m2 + 2 * a * b * m2 + a * a * m2 == k * k * m2,
    ;
    let rx = blend(vx, tx, alpha);
    let ry = blend(vy, ty, alpha);
    lemma_toward_zero(ex, k);
    lemma_toward_zero(ey, k);
    assert((rx * rx + ry * ry) * (k * k) <= k * k * m2) by (nonlinear_arith)
        requires
            rx * rx * (k * k) <= ex * ex,
            ry * ry * (k * k) <= ey * ey,
            ex * ex + ey * ey <= k * k * m2,
    ;
    assert(rx * rx + ry * ry <= m2) by (nonlinear_arith)
        requires
            (rx * rx + ry * ry) * (k * k) <= k * k * m2,
            k > 0,
    ;
}

fn blend_coord(v: i64, t: i64, alpha: u32) -> (r: i64)
    requires
        alpha <= SMOOTHING_SCALE,
        -0x1_0000_0000 <= v <= 0x1_0000_0000,
        -0x1_0000_0000 <= t <= 0x1_0000_0000,
    ensures
        r == blend(v as int, t as int, alpha as int),
{
    let k = SMOOTHING_SCALE as i128;
    proof {
        assert(-(k - alpha) * 0x1_0000_0000 <= (k - alpha) * v <= (k - alpha) * 0x1_0000_0000)
            by (nonlinear_arith)
            requires
                0 <= k - alpha <= 1_000_000,
                -0x1_0000_0000 <= v <= 0x1_0000_0000,
        ;
        assert(-alpha * 0x1_0000_0000 <= alpha * t <= alpha * 0x1_0000_0000) by (nonlinear_arith)
            requires
                0 <= alpha <= 1_000_000,
                -0x1_0000_0000 <= t <= 0x1_0000_0000,
        ;
    }
    let n: i128 = (k - alpha as i128) * (v as i128) + (alpha as i128) * (t as i128);
    proof {
        lemma_toward_zero(n as int, k as int);
    }
    let q: i128 = if n >= 0 { n / k } else { -((-n) / k) };
    proof {
        assert(q == toward_zero(n as int, k as int));
        if n >= 0 {
            assert(0 <= q <= 0x1_0000_0000) by (nonlinear_arith)
                requires
                    0 <= q * k <= n,
                    k == 1_000_000,
                    n <= k * 0x1_0000_0000,
            ;
        } else {
            assert(-0x1_0000_0000 <= q <= 0) by (nonlinear_arith)
                requires
                    n <= q * k <= 0,
                    k == 1_000_000,
                    -k * 0x1_0000_0000 <= n,
            ;
        }
    }
    q as i64
}

proof fn lemma_small_coords(v: Vec2, m: int)
    requires
        v.norm2() <= m * m,
        0 <= m <= u32::MAX,
    ensures
        -0x1_0000_0000 <= v.x <= 0x1_0000_0000,
        -0x1_0000_0000 <= v.y <= 0x1_0000_0000,
{
    assert(v.x * v.x <= m * m && v.y * v.y <= m * m) by (nonlinear_arith)
        requires
            v.x * v.x + v.y * v.y <= m * m,
    ;
    assert(-m <= v.x <= m) by (nonlinear_arith)
        requires
            v.x * v.x <= m * m,
            m >= 0,
    ;
    assert(-m <= v.y <= m) by (nonlinear_arith)
        requires
            v.y * v.y <= m * m,
            m >= 0,
    ;
}

/// Eases the velocity toward `direction` at full speed by the fraction
/// `alpha` (in parts per million); the zero direction eases it toward rest.
/// A velocity within its speed stays within it.
pub fn apply_acceleration(velocity: &mut Velocity, acceleration: &Acceleration, alpha: u32)
    requires
        old(velocity).wf(),
        alpha <= SMOOTHING_SCALE,
    ensures
        final(velocity).max == old(velocity).max,
        final(velocity).value == eased(*old(velocity), acceleration.direction, alpha as int),
        final(velocity).wf(),
{
    let target = scale_to(acceleration.direction, velocity.max as u64);
    proof {
        let m = velocity.max as int;
        lemma_scaled_within(acceleration.direction, m);
        lemma_small_coords(velocity.value, m);
        lemma_small_coords(target, m);
        lemma_blend_within(
            velocity.value.x as int,
            velocity.value.y as int,
            target.x as int,
            target.y as int,
            alpha as int,
            m * m,
        );
    }
    let x = blend_coord(velocity.value.x, target.x, alpha);
    let y = blend_coord(velocity.value.y, target.y, alpha);
    velocity.value = Vec2 { x, y };
}

/// A position (in nano-units) after `dt_us` microseconds at `velocity`.
pub open spec fn advanced(position: Vec2, velocity: Vec2, dt_us: int) -> Vec2 {
    Vec2 {
        x: saturate(position.x + velocity.x * dt_us),
        y: saturate(position.y + velocity.y * dt_us),
    }
}

fn advance_coord(p: i64, v: i64, dt_us: u64) -> (r: i64)
    requires
        -0x1_0000_0000 <= v <= 0x1_0000_0000,
    ensures
        r == saturate(p + v * dt_us),
{
    proof {
        assert(-0x1_0000_0000_0000_0000_0000_0000 <= v * dt_us <= 0x1_0000_0000_0000_0000_0000_0000)
            by (nonlinear_arith)
            requires
                -0x1_0000_0000 <= v <= 0x1_0000_0000,
                0 <= dt_us <= u64::MAX,
        ;
    }
    let n: i128 = p as i128 + (v as i128) * (dt_us as i128);
    if n > i64::MAX as i128 {
        i64::MAX
    } else if n < i64::MIN as i128 {
        i64::MIN
    } else {
        n as i64
    }
}

/// Advances a position by the distance covered in `dt_us` microseconds.
pub fn apply_velocity(position: &mut Vec2, velocity: &Velocity, dt_us: u64)
    requires
        velocity.wf(),
    ensures
        *final(position) == advanced(*old(position), velocity.value, dt_us as int),
{
    proof {
        lemma_small_coords(velocity.value, velocity.max as int);
    }
    let x = advance_coord(position.x, velocity.value.x, dt_us);
    let y = advance_coord(position.y, velocity.value.y, dt_us);
    *position = Vec2 { x, y };
}

} // verus!
