//! Integer plane vectors and scaling a direction to a given length.
use vstd::prelude::*;

verus! {

/// A point or a vector of the plane.
#[derive(Clone, Copy, Debug, PartialEq, Eq, Structural)]
pub struct Vec2 {
    pub x: i64,
    pub y: i64,
}

impl Vec2 {
    /// Squared Euclidean length.
    pub open spec fn norm2(self) -> int {
        self.x * self.x + self.y * self.y
    }

    pub fn new(x: i64, y: i64) -> (r: Vec2)
        ensures
            r.x == x,
            r.y == y,
    {
        Vec2 { x, y }
    }

    pub fn zero() -> (r: Vec2)
        ensures
            r.x == 0,
            r.y == 0,
    {
        Vec2 { x: 0, y: 0 }
    }

    pub fn is_zero(&self) -> (r: bool)
        ensures
            r == (self.x == 0 && self.y == 0),
    {
        self.x == 0 && self.y == 0
    }
}

pub open spec fn abs(v: int) -> int {
    if v < 0 {
        -v
    } else {
        v
    }
}

/// `r` is the greatest natural number whose square does not exceed `m`.
pub open spec fn is_floor_sqrt(m: int, r: int) -> bool {
    &&& r >= 0
    &&& r * r <= m
    &&& m < (r + 1) * (r + 1)
}

/// The greatest natural number whose square does not exceed `m`.
pub open spec fn floor_sqrt_of(m: int) -> int {
    choose|r: int| #[trigger] is_floor_sqrt(m, r)
}

proof fn lemma_square_monotone(a: int, b: int)
    requires
        0 <= a <= b,
    ensures
        a * a <= b * b,
{
    assert(a * a <= b * b) by (nonlinear_arith)
        requires
            0 <= a <= b,
    ;
}

proof fn lemma_floor_sqrt_of(m: int, r: int)
    requires
        is_floor_sqrt(m, r),
    ensures
        floor_sqrt_of(m) == r,
{
    let s = floor_sqrt_of(m);
    assert(is_floor_sqrt(m, s));
    if s < r {
        lemma_square_monotone(s + 1, r);
    } else if r < s {
        lemma_square_monotone(r + 1, s);
    }
}

/// The integer square root of `m`, by bisection.
pub fn floor_sqrt(m: u128) -> (r: u128)
    ensures
        is_floor_sqrt(m as int, r as int),
        r == floor_sqrt_of(m as int),
{
    let mut lo: u128 = 0;
    let mut hi: u128 = 0x1_0000_0000_0000_0000;
    proof {
        assert(hi * hi > u128::MAX) by (nonlinear_arith)
            requires
                hi == 0x1_0000_0000_0000_0000u128,
        ;
    }
    while hi - lo > 1
        invariant
            lo < hi <= 0x1_0000_0000_0000_0000u128,
            lo * lo <= m,
            hi * hi > m,
        decreases hi - lo,
    {
        let mid: u128 = lo + (hi - lo) / 2;
        proof {
            lemma_square_monotone(mid as int, 0xffff_ffff_ffff_ffff);
        }
        if mid * mid <= m {
            lo = mid;
        } else {
            hi = mid;
        }
    }
    proof {
        lemma_floor_sqrt_of(m as int, lo as int);
    }
    lo
}

/// The largest coordinate that directions keep before scaling.
pub const DIRECTION_LIMIT: i64 = 0x8000_0000;

/// `v / q`, rounded toward zero.
pub open spec fn quotient(v: int, q: int) -> int {
    if v >= 0 {
        v / q
    } else {
        -((-v) / q)
    }
}

/// The larger magnitude of the two coordinates.
pub open spec fn max_abs(d: Vec2) -> int {
    if abs(d.x as int) >= abs(d.y as int) {
        abs(d.x as int)
    } else {
        abs(d.y as int)
    }
}

/// `d` itself when its coordinates are within `DIRECTION_LIMIT`; else `d`
/// divided, toward zero, by the least whole number that brings them there.
pub open spec fn reduced(d: Vec2) -> Vec2 {
    if max_abs(d) <= DIRECTION_LIMIT {
        d
    } else {
        let q = max_abs(d) / (DIRECTION_LIMIT as int) + 1;
        Vec2 { x: quotient(d.x as int, q) as i64, y: quotient(d.y as int, q) as i64 }
    }
}

/// One coordinate of a direction of squared length `n` brought to length
/// `len`: the integer root of `di² · len² / n`, with the sign of `di`.
pub open spec fn scaled_coord(di: int, len: int, n: int) -> int {
    if n == 0 {
        0
    } else if di >= 0 {
        floor_sqrt_of(di * di * (len * len) / n)
    } else {
        -floor_sqrt_of(di * di * (len * len) / n)
    }
}

/// `d` brought to length `len`, each coordinate rounded toward zero; the
/// zero vector stays zero.
pub open spec fn scaled(d: Vec2, len: int) -> (int, int) {
    let e = reduced(d);
    (scaled_coord(e.x as int, len, e.norm2()), scaled_coord(e.y as int, len, e.norm2()))
}

/// `d` brought to length `len`, as a vector.
pub open spec fn scaled_vec(d: Vec2, len: int) -> Vec2 {
    Vec2 { x: scaled(d, len).0 as i64, y: scaled(d, len).1 as i64 }
}

proof fn lemma_exists_floor_sqrt(m: int)
    requires
        m >= 0,
    ensures
        is_floor_sqrt(m, floor_sqrt_of(m)),
    decreases m,
{
    if m == 0 {
        assert(is_floor_sqrt(0, 0));
    } else {
        lemma_exists_floor_sqrt(m - 1);
        let k = floor_sqrt_of(m - 1);
        if (k + 1) * (k + 1) <= m {
            assert((k + 1) * (k + 1) == m);
            assert(m < (k + 2) * (k + 2)) by (nonlinear_arith)
                requires
                    (k + 1) * (k + 1) == m,
                    k >= 0,
            ;
            assert(is_floor_sqrt(m, k + 1));
        } else {
            assert(is_floor_sqrt(m, k));
        }
    }
}

/// Reducing keeps a direction's coordinates within the limit, keeps the
/// zero vector zero and any other vector nonzero.
pub proof fn lemma_reduced(d: Vec2)
    ensures
        abs(reduced(d).x as int) <= DIRECTION_LIMIT,
        abs(reduced(d).y as int) <= DIRECTION_LIMIT,
        (reduced(d).norm2() == 0) == (d.norm2() == 0),
{
    let l = DIRECTION_LIMIT as int;
    let mx = max_abs(d);
    assert(d.x * d.x >= 0 && d.y * d.y >= 0) by (nonlinear_arith);
    if mx > l {
        let q = mx / l + 1;
        assert(q * l > mx && q >= 2 && q <= mx) by (nonlinear_arith)
            requires
                q == mx / l + 1,
                mx > l,
                l == 0x8000_0000,
        ;
        assert forall|v: int| -mx <= v <= mx implies abs(quotient(v, q)) <= l && (abs(v) == mx
            ==> quotient(v, q) != 0) by {
            let a = abs(v);
            assert(a / q <= l && (a == mx ==> a / q >= 1)) by (nonlinear_arith)
                requires
                    0 <= a <= mx,
                    q * l > mx,
                    2 <= q <= mx,
            ;
        }
        let e = reduced(d);
        if abs(d.x as int) == mx {
            assert(e.x != 0);
        } else {
            assert(e.y != 0);
        }
        assert(e.x * e.x + e.y * e.y > 0) by (nonlinear_arith)
            requires
                e.x != 0 || e.y != 0,
        ;
        assert(d.x != 0 || d.y != 0);
        assert(d.x * d.x + d.y * d.y > 0) by (nonlinear_arith)
            requires
                d.x != 0 || d.y != 0,
        ;
    } else {
        assert(d.norm2() == 0 ==> d.x == 0 && d.y == 0) by (nonlinear_arith)
            requires
                d.x * d.x >= 0,
                d.y * d.y >= 0,
        ;
    }
}

proof fn lemma_coord_bounds(di: int, len: int, n: int)
    requires
        len >= 0,
        n > 0,
        di * di <= n,
    ensures
        abs(scaled_coord(di, len, n)) <= len,
        scaled_coord(di, len, n) * scaled_coord(di, len, n) * n <= di * di * (len * len),
        (abs(scaled_coord(di, len, n)) + 1) * (abs(scaled_coord(di, len, n)) + 1) * n > di * di
            * (len * len),
{
    let a = di * di * (len * len);
    assert(0 <= a <= n * (len * len)) by (nonlinear_arith)
        requires
            a == di * di * (len * len),
            di * di <= n,
    ;
    let q = a / n;
    assert(q * n <= a < (q + 1) * n && q <= len * len && q >= 0) by (nonlinear_arith)
        requires
            q == a / n,
            n > 0,
            0 <= a <= n * (len * len),
    ;
    lemma_exists_floor_sqrt(q);
    let m = floor_sqrt_of(q);
    assert(m <= len) by (nonlinear_arith)
        requires
            m * m <= q,
            q <= len * len,
            m >= 0,
            len >= 0,
    ;
    assert(m * m * n <= a) by (nonlinear_arith)
        requires
            m * m <= q,
            q * n <= a,
            n > 0,
    ;
    assert((m + 1) * (m + 1) * n > a) by (nonlinear_arith)
        requires
            q < (m + 1) * (m + 1),
            a < (q + 1) * n,
            n > 0,
    ;
    assert(abs(scaled_coord(di, len, n)) == m);
    assert(scaled_coord(di, len, n) * scaled_coord(di, len, n) == m * m) by (nonlinear_arith)
        requires
            scaled_coord(di, len, n) == m || scaled_coord(di, len, n) == -m,
    ;
}

/// Two naturals whose squares, each raised by one, sum beyond `l²` have
/// squares summing to at least `(l - 2)²`.
proof fn lemma_near_length(rx: int, ry: int, l: int)
    requires
        rx >= 0,
        ry >= 0,
        l >= 2,
        (rx + 1) * (rx + 1) + (ry + 1) * (ry + 1) > l * l,
    ensures
        rx * rx + ry * ry >= (l - 2) * (l - 2),
{
    let q = rx * rx + ry * ry;
    let t = rx + ry;
    assert(q + 2 * t + 2 > l * l) by (nonlinear_arith)
        requires
            (rx + 1) * (rx + 1) + (ry + 1) * (ry + 1) > l * l,
            q == rx * rx + ry * ry,
            t == rx + ry,
    ;
    assert(t * t <= 2 * q) by (nonlinear_arith)
        requires
            q == rx * rx + ry * ry,
            t == rx + ry,
    ;
    if q < (l - 2) * (l - 2) {
        assert(t >= 2 * l - 2) by (nonlinear_arith)
            requires
                q + 2 * t + 2 > l * l,
                q + 1 <= (l - 2) * (l - 2),
        ;
        assert((2 * l - 2) * (2 * l - 2) <= t * t) by (nonlinear_arith)
            requires
                t >= 2 * l - 2,
                l >= 2,
        ;
        assert((l - 2) * (l - 2) <= (l - 1) * (l - 1)) by (nonlinear_arith)
            requires
                l >= 2,
        ;
        assert(false) by (nonlinear_arith)
            requires
                (2 * l - 2) * (2 * l - 2) <= t * t,
                t * t <= 2 * q,
                q < (l - 2) * (l - 2),
                (l - 2) * (l - 2) <= (l - 1) * (l - 1),
        ;
    }
}

/// A scaled vector is never longer than the length it was scaled to, and,
/// for a nonzero direction and a length of at least two, falls short of it
/// by less than two.
pub proof fn lemma_scaled_within(d: Vec2, len: int)
    requires
        len >= 0,
    ensures
        abs(scaled(d, len).0) <= len,
        abs(scaled(d, len).1) <= len,
        scaled(d, len).0 * scaled(d, len).0 + scaled(d, len).1 * scaled(d, len).1 <= len * len,
        d.norm2() > 0 && len >= 2 ==> scaled(d, len).0 * scaled(d, len).0 + scaled(d, len).1
            * scaled(d, len).1 >= (len - 2) * (len - 2),
{
    lemma_reduced(d);
    let e = reduced(d);
    let n = e.norm2();
    let (sx, sy) = scaled(d, len);
    assert(e.x * e.x >= 0 && e.y * e.y >= 0) by (nonlinear_arith);
    assert(len * len >= 0) by (nonlinear_arith);
    if n > 0 {
        lemma_coord_bounds(e.x as int, len, n);
        lemma_coord_bounds(e.y as int, len, n);
        assert((sx * sx + sy * sy) * n <= n * (len * len)) by (nonlinear_arith)
            requires
                sx * sx * n <= e.x * e.x * (len * len),
                sy * sy * n <= e.y * e.y * (len * len),
                n == e.x * e.x + e.y * e.y,
        ;
        assert(sx * sx + sy * sy <= len * len) by (nonlinear_arith)
            requires
                (sx * sx + sy * sy) * n <= n * (len * len),
                n > 0,
        ;
        let ax = abs(sx);
        let ay = abs(sy);
        assert((ax + 1) * (ax + 1) + (ay + 1) * (ay + 1) > len * len) by (nonlinear_arith)
            requires
                (ax + 1) * (ax + 1) * n > e.x * e.x * (len * len),
                (ay + 1) * (ay + 1) * n > e.y * e.y * (len * len),
                n == e.x * e.x + e.y * e.y,
                n > 0,
        ;
        assert(ax * ax == sx * sx && ay * ay == sy * sy) by (nonlinear_arith)
            requires
                ax == sx || ax == -sx,
                ay == sy || ay == -sy,
        ;
        if len >= 2 {
            lemma_near_length(ax, ay, len);
        }
    }
}

/// `p` held within the range of `i64`.
pub open spec fn saturate(p: int) -> i64 {
    if p > i64::MAX {
        i64::MAX
    } else if p < i64::MIN {
        i64::MIN
    } else {
        p as i64
    }
}

/// The vector from `from` to `to`, each coordinate held within `i64`.
pub open spec fn offset(from: Vec2, to: Vec2) -> Vec2 {
    Vec2 { x: saturate(to.x - from.x), y: saturate(to.y - from.y) }
}

fn saturating_diff(a: i64, b: i64) -> (r: i64)
    ensures
        r == saturate(a - b),
{
    let d: i128 = a as i128 - b as i128;
    if d > i64::MAX as i128 {
        i64::MAX
    } else if d < i64::MIN as i128 {
        i64::MIN
    } else {
        d as i64
    }
}

/// The vector from `from` to `to`, each coordinate held within `i64`.
pub fn offset_to(from: Vec2, to: Vec2) -> (r: Vec2)
    ensures
        r == offset(from, to),
{
    Vec2 { x: saturating_diff(to.x, from.x), y: saturating_diff(to.y, from.y) }
}

/// Squared Euclidean length of `v`.
pub fn norm2(v: Vec2) -> (r: u128)
    ensures
        r == v.norm2(),
{
    let ax = magnitude(v.x);
    let ay = magnitude(v.y);
    proof {
        lemma_square_monotone(ax as int, 0x8000_0000_0000_0000);
        lemma_square_monotone(ay as int, 0x8000_0000_0000_0000);
        assert(ax * ax == v.x * v.x) by (nonlinear_arith)
            requires
                ax == v.x || ax == -v.x,
        ;
        assert(ay * ay == v.y * v.y) by (nonlinear_arith)
            requires
                ay == v.y || ay == -v.y,
        ;
    }
    ax * ax + ay * ay
}

fn magnitude(v: i64) -> (r: u128)
    ensures
        r == abs(v as int),
        r <= 0x8000_0000_0000_0000u128,
{
    if v < 0 {
        (-(v as i128)) as u128
    } else {
        v as u128
    }
}

/// `d` reduced so that both coordinates lie within `DIRECTION_LIMIT`.
pub fn reduce(d: Vec2) -> (r: Vec2)
    ensures
        r == reduced(d),
{
    let ax = magnitude(d.x);
    let ay = magnitude(d.y);
    let mx = if ax >= ay { ax } else { ay };
    if mx <= DIRECTION_LIMIT as u128 {
        return d;
    }
    let q: u128 = mx / (DIRECTION_LIMIT as u128) + 1;
    proof {
        lemma_reduced(d);
        assert(q >= 2 && q <= mx) by (nonlinear_arith)
            requires
                q == mx / 0x8000_0000 + 1,
                mx > 0x8000_0000,
        ;
    }
    let qx = ax / q;
    let qy = ay / q;
    proof {
        assert(qx <= ax && qy <= ay) by (nonlinear_arith)
            requires
                qx == ax / q,
                qy == ay / q,
                q >= 2,
        ;
    }
    let x: i64 = if d.x < 0 { -(qx as i64) } else { qx as i64 };
    let y: i64 = if d.y < 0 { -(qy as i64) } else { qy as i64 };
    Vec2 { x, y }
}

/// One coordinate, of magnitude `a`, of a direction of squared length `n`
/// brought to squared length `l2`, computed as `(l2 / n)·a² + (l2 % n)·a² / n`
/// so that no product leaves 128 bits.
fn scaled_magnitude(a: u128, n: u128, l2: u128) -> (r: u128)
    requires
        a * a <= n,
        0 < n <= 0x8000_0000_0000_0000u128,
        l2 <= 0x4000_0000_0000_0000_0000_0000_0000_0000u128,
    ensures
        r == floor_sqrt_of(a * a * l2 / (n as int)),
{
    let u = a * a;
    let hi = l2 / n;
    let lo = l2 % n;
    proof {
        assert(hi * n <= l2 && lo < n && l2 == hi * n + lo) by (nonlinear_arith)
            requires
                hi == l2 / n,
                lo == l2 % n,
                n > 0,
        ;
        assert(hi * u <= l2) by (nonlinear_arith)
            requires
                hi * n <= l2,
                u <= n,
                hi >= 0,
                u >= 0,
        ;
        assert(lo * u < 0x4000_0000_0000_0000_0000_0000_0000_0000) by (nonlinear_arith)
            requires
                lo < n,
                u <= n,
                n <= 0x8000_0000_0000_0000,
                lo >= 0,
                u >= 0,
        ;
    }
    let low = lo * u / n;
    let rest = lo * u % n;
    proof {
        assert(lo * u == low * n + rest && 0 <= rest < n) by (nonlinear_arith)
            requires
                low == lo * u / (n as int),
                rest == lo * u % (n as int),
                n > 0,
                lo * u >= 0,
        ;
        assert(u * l2 == (hi * u + low) * n + rest) by (nonlinear_arith)
            requires
                l2 == hi * n + lo,
                lo * u == low * n + rest,
        ;
        vstd::arithmetic::div_mod::lemma_fundamental_div_mod_converse(
            (u * l2) as int,
            n as int,
            (hi * u + low) as int,
            rest as int,
        );
        assert(low <= lo * u) by (nonlinear_arith)
            requires
                low == lo * u / (n as int),
                n > 0,
                lo * u >= 0,
        ;
        assert(a * a * l2 == u * l2);
    }
    floor_sqrt(hi * u + low)
}

/// Brings `d` to length `len`: each coordinate is the integer root of
/// `d_i² · len² / |d|²` with the sign of `d_i`, after `d` has been reduced
/// to coordinates within `DIRECTION_LIMIT`. The zero vector stays zero; any
/// other vector comes out no longer than `len` and, for `len` of at least
/// two, less than two shorter.
pub fn scale_to(d: Vec2, len: u64) -> (r: Vec2)
    requires
        len <= i64::MAX,
    ensures
        r.x == scaled(d, len as int).0,
        r.y == scaled(d, len as int).1,
        r == scaled_vec(d, len as int),
        r.norm2() <= len * len,
        d.norm2() > 0 && len >= 2 ==> r.norm2() >= (len - 2) * (len - 2),
        d.norm2() == 0 ==> r.x == 0 && r.y == 0,
{
    let e = reduce(d);
    proof {
        lemma_reduced(d);
        lemma_scaled_within(d, len as int);
    }
    let ax = magnitude(e.x);
    let ay = magnitude(e.y);
    proof {
        lemma_square_monotone(ax as int, 0x8000_0000);
        lemma_square_monotone(ay as int, 0x8000_0000);
        assert(ax * ax == e.x * e.x) by (nonlinear_arith)
            requires
                ax == e.x || ax == -e.x,
        ;
        assert(ay * ay == e.y * e.y) by (nonlinear_arith)
            requires
                ay == e.y || ay == -e.y,
        ;
        lemma_square_monotone(len as int, 0x7fff_ffff_ffff_ffff);
    }
    let n: u128 = ax * ax + ay * ay;
    if n == 0 {
        return Vec2::zero();
    }
    let l2: u128 = (len as u128) * (len as u128);
    let mx = scaled_magnitude(ax, n, l2);
    let my = scaled_magnitude(ay, n, l2);
    proof {
        lemma_coord_bounds(e.x as int, len as int, n as int);
        lemma_coord_bounds(e.y as int, len as int, n as int);
        assert(e.x * e.x * (len * len) == ax * ax * l2);
        assert(e.y * e.y * (len * len) == ay * ay * l2);
    }
    let rx: i64 = if e.x < 0 { -(mx as i64) } else { mx as i64 };
    let ry: i64 = if e.y < 0 { -(my as i64) } else { my as i64 };
    Vec2 { x: rx, y: ry }
}

} // verus!
