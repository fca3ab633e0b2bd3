//! Cannons firing bursts of bullets and rocket ships launching rockets.
use vstd::prelude::*;
use crate::enemy::Enemy;
use crate::geometry::{Vec2, offset, offset_to};
use crate::timer::ticked;
use crate::world::{BURST_SIZE, Creep, World, WorldView, spawn_single_enemy, spawned};

verus! {

/// The direction of the `j`-th bullet of a cannon's burst: a twelfth of a
/// turn apart, starting straight down and turning anticlockwise.
pub open spec fn burst_direction_spec(j: int) -> Vec2 {
    if j == 0 {
        Vec2 { x: 0, y: -1_000_000i64 }
    } else if j == 1 {
        Vec2 { x: 500_000, y: -866_025i64 }
    } else if j == 2 {
        Vec2 { x: 866_025, y: -500_000i64 }
    } else if j == 3 {
        Vec2 { x: 1_000_000, y: 0i64 }
    } else if j == 4 {
        Vec2 { x: 866_025, y: 500_000i64 }
    } else if j == 5 {
        Vec2 { x: 500_000, y: 866_025i64 }
    } else if j == 6 {
        Vec2 { x: 0, y: 1_000_000i64 }
    } else if j == 7 {
        Vec2 { x: -500_000i64, y: 866_025i64 }
    } else if j == 8 {
        Vec2 { x: -866_025i64, y: 500_000i64 }
    } else if j == 9 {
        Vec2 { x: -1_000_000i64, y: 0i64 }
    } else if j == 10 {
        Vec2 { x: -866_025i64, y: -500_000i64 }
    } else {
        Vec2 { x: -500_000i64, y: -866_025i64 }
    }
}

/// The direction of the `j`-th bullet of a cannon's burst.
pub fn burst_direction(j: u32) -> (r: Vec2)
    ensures
        r == burst_direction_spec(j as int),
{
    if j == 0 {
        Vec2::new(0, -1_000_000)
    } else if j == 1 {
        Vec2::new(500_000, -866_025)
    } else if j == 2 {
        Vec2::new(866_025, -500_000)
    } else if j == 3 {
        Vec2::new(1_000_000, 0)
    } else if j == 4 {
        Vec2::new(866_025, 500_000)
    } else if j == 5 {
        Vec2::new(500_000, 866_025)
    } else if j == 6 {
        Vec2::new(0, 1_000_000)
    } else if j == 7 {
        Vec2::new(-500_000, 866_025)
    } else if j == 8 {
        Vec2::new(-866_025, 500_000)
    } else if j == 9 {
        Vec2::new(-1_000_000, 0)
    } else if j == 10 {
        Vec2::new(-866_025, -500_000)
    } else {
        Vec2::new(-500_000, -866_025)
    }
}

/// The first `n` bullets of a burst fired from `position`.
pub open spec fn burst(position: Vec2, n: nat) -> Seq<Creep>
    decreases n,
{
    if n == 0 {
        Seq::empty()
    } else {
        burst(position, (n - 1) as nat).push(
            spawned(Enemy::Bullet, position, burst_direction_spec(n - 1)),
        )
    }
}

/// The course of a rocket launched from `from`: toward the player where
/// there is one elsewhere, else straight up.
pub open spec fn rocket_course(from: Vec2, target: Option<Vec2>) -> Vec2 {
    match target {
        Some(p) => if offset(from, p) == (Vec2 { x: 0, y: 0 }) {
            Vec2 { x: 0, y: 1 }
        } else {
            offset(from, p)
        },
        None => Vec2 { x: 0, y: 1 },
    }
}

/// The enemy after its shooting timer has run `delta` longer.
pub open spec fn reloaded(c: Creep, delta: int) -> Creep {
    match c.shoot_timer {
        Some(t) => Creep { shoot_timer: Some(ticked(t, delta).0), ..c },
        None => c,
    }
}

/// What the enemy fires when its shooting timer runs `delta` longer: a
/// burst of bullets from a cannon, a rocket from a rocket ship, nothing
/// while the timer runs or for another kind.
pub open spec fn fired(c: Creep, delta: int, target: Option<Vec2>) -> Seq<Creep> {
    match c.shoot_timer {
        Some(t) => if ticked(t, delta).1 {
            match c.kind {
                Enemy::Cannon => burst(c.position, BURST_SIZE as nat),
                Enemy::RocketShip => seq![
                    spawned(Enemy::Rocket, c.position, rocket_course(c.position, target)),
                ],
                _ => Seq::empty(),
            }
        } else {
            Seq::empty()
        },
        None => Seq::empty(),
    }
}

/// Everything that the enemies of `s` fire, in their order.
pub open spec fn volleys(s: Seq<Creep>, delta: int, target: Option<Vec2>) -> Seq<Creep>
    decreases s.len(),
{
    if s.len() == 0 {
        Seq::empty()
    } else {
        volleys(s.drop_last(), delta, target) + fired(s.last(), delta, target)
    }
}

impl World {
    /// Runs every shooting timer on by `delta_us`; each that runs out fires:
    /// a cannon a burst of twelve bullets, a rocket ship a rocket toward the
    /// player. What is fired joins the enemies after all the shooters.
    pub fn handle_shooting(&mut self, delta_us: u64)
        requires
            old(self).wf(),
        ensures
            final(self).wf(),
            ({
                let o = old(self)@;
                let f = final(self)@;
                let target = match o.player {
                    Some(p) => Some(p.position),
                    None => None,
                };
                &&& f == (WorldView { enemies: f.enemies, ..o })
                &&& f.enemies.len() == o.enemies.len() + volleys(
                    o.enemies,
                    delta_us as int,
                    target,
                ).len()
                &&& forall|i: int|
                    0 <= i < o.enemies.len() ==> #[trigger] f.enemies[i] == reloaded(
                        o.enemies[i],
                        delta_us as int,
                    )
                &&& f.enemies.subrange(o.enemies.len() as int, f.enemies.len() as int) == volleys(
                    o.enemies,
                    delta_us as int,
                    target,
                )
            }),
    {
        let target = match self.player {
            Some(p) => Some(p.position),
            None => None,
        };
        let ghost before = self@;
        let mut shots: Vec<Creep> = Vec::new();
        let mut i: usize = 0;
        while i < self.enemies.len()
            invariant
                i <= self@.enemies.len(),
                self.wf(),
                self@ == (WorldView { enemies: self@.enemies, ..before }),
                self@.enemies.len() == before.enemies.len(),
                target == match before.player {
                    Some(p) => Some(p.position),
                    None => None,
                },
                forall|k: int| 0 <= k < i ==> #[trigger] self@.enemies[k] == reloaded(before.enemies[k], delta_us as int),
                forall|k: int| i <= k < self@.enemies.len() ==> #[trigger] self@.enemies[k] == before.enemies[k],
                shots@ == volleys(before.enemies.subrange(0, i as int), delta_us as int, target),
                forall|k: int| 0 <= k < shots@.len() ==> (#[trigger] shots@[k]).wf(),
            decreases self@.enemies.len() - i,
        {
            let c = self.enemies[i];
            let ghost s = before.enemies.subrange(0, i + 1);
            assert(s.drop_last() =~= before.enemies.subrange(0, i as int));
            assert(s.last() == c);
            if let Some(t) = c.shoot_timer {
                let mut t2 = t;
                let done = t2.tick(delta_us);
                self.enemies.set(i, Creep { shoot_timer: Some(t2), ..c });
                if done {
                    let ghost base = shots@;
                    match c.kind {
                        Enemy::Cannon => {
                            let mut j: u32 = 0;
                            while j < BURST_SIZE
                                invariant
                                    j <= BURST_SIZE,
                                    shots@ == base + burst(c.position, j as nat),
                                    forall|k: int| 0 <= k < shots@.len() ==> (#[trigger] shots@[k]).wf(),
                                decreases BURST_SIZE - j,
                            {
                                let b = spawn_single_enemy(Enemy::Bullet, c.position, burst_direction(j));
                                let ghost prev = shots@;
                                shots.push(b);
                                proof {
                                    assert(shots@ =~= base + burst(c.position, (j + 1) as nat));
                                    assert forall|k: int| 0 <= k < shots@.len() implies (#[trigger] shots@[k]).wf() by {
                                        if k < prev.len() {
                                            assert(shots@[k] == prev[k]);
                                        }
                                    }
                                }
                                j = j + 1;
                            }
                        },
                        Enemy::RocketShip => {
                            let course = match target {
                                Some(p) => {
                                    let d = offset_to(c.position, p);
                                    if d.is_zero() {
                                        Vec2::new(0, 1)
                                    } else {
                                        d
                                    }
                                },
                                None => Vec2::new(0, 1),
                            };
                            let r = spawn_single_enemy(Enemy::Rocket, c.position, course);
                            let ghost prev = shots@;
                            shots.push(r);
                            proof {
                                assert(shots@ =~= base + seq![r]);
                                assert forall|k: int| 0 <= k < shots@.len() implies (#[trigger] shots@[k]).wf() by {
                                    if k < prev.len() {
                                        assert(shots@[k] == prev[k]);
                                    }
                                }
                            }
                        },
                        _ => {
                            assert(shots@ =~= base + Seq::<Creep>::empty());
                        },
                    }
                } else {
                    assert(shots@ =~= shots@ + Seq::<Creep>::empty());
                }
                proof {
                    assert(self@.enemies[i as int].wf());
                    assert forall|k: int| 0 <= k < self@.enemies.len() implies (#[trigger] self@.enemies[k]).wf() by {
                        if k != i {
                            assert(self@.enemies[k] == before.enemies[k] || self@.enemies[k] == reloaded(before.enemies[k], delta_us as int));
                        }
                    }
                }
            } else {
                assert(shots@ =~= shots@ + Seq::<Creep>::empty());
            }
            i = i + 1;
        }
        assert(before.enemies.subrange(0, i as int) =~= before.enemies);
        let ghost mid = self@.enemies;
        let mut k: usize = 0;
        while k < shots.len()
            invariant
                k <= shots@.len(),
                self@ == (WorldView { enemies: self@.enemies, ..before }),
                self@.enemies == mid + shots@.subrange(0, k as int),
                mid.len() == before.enemies.len(),
                before.spawn.wf(),
                before.player matches Some(p) ==> p.wf(),
                forall|m: int| 0 <= m < mid.len() ==> (#[trigger] mid[m]).wf(),
                forall|m: int| 0 <= m < shots@.len() ==> (#[trigger] shots@[m]).wf(),
            decreases shots@.len() - k,
        {
            self.enemies.push(shots[k]);
            assert(self@.enemies =~= mid + shots@.subrange(0, k + 1));
            k = k + 1;
        }
        proof {
            assert(shots@.subrange(0, k as int) =~= shots@);
            assert(self@.enemies.subrange(mid.len() as int, self@.enemies.len() as int) =~= shots@);
            assert forall|m: int| 0 <= m < self@.enemies.len() implies (#[trigger] self@.enemies[m]).wf() by {
                if m < mid.len() {
                    assert(self@.enemies[m] == mid[m]);
                } else {
                    assert(self@.enemies[m] == shots@[m - mid.len()]);
                }
            }
            assert forall|m: int| 0 <= m < before.enemies.len() implies #[trigger] self@.enemies[m] == reloaded(before.enemies[m], delta_us as int) by {
                assert(self@.enemies[m] == mid[m]);
            }
        }
    }
}

} // verus!
