//! The kinematics step applied to every body of the world.
use vstd::prelude::*;
use crate::movement::{SMOOTHING_SCALE, Velocity, advanced, apply_acceleration, apply_velocity, eased};
use crate::world::{Creep, Player, World, WorldView};

verus! {

/// The smoothing factor of one step, in parts per million, for bodies that
/// steer at `rate`.
#[derive(Clone, Copy, Debug, PartialEq, Eq, Structural)]
pub struct Smoothing {
    pub rate: u32,
    pub factor: u32,
}

/// The factor that the first entry for `rate` gives, at most one; zero where
/// no entry names the rate.
pub open spec fn factor_for(fs: Seq<Smoothing>, rate: u32) -> int
    decreases fs.len(),
{
    if fs.len() == 0 {
        0
    } else if fs[0].rate == rate {
        if fs[0].factor > SMOOTHING_SCALE {
            SMOOTHING_SCALE as int
        } else {
            fs[0].factor as int
        }
    } else {
        factor_for(fs.drop_first(), rate)
    }
}

/// The smoothing factor for bodies that steer at `rate`.
pub fn smoothing_factor(factors: &Vec<Smoothing>, rate: u32) -> (r: u32)
    ensures
        r == factor_for(factors@, rate),
        r <= SMOOTHING_SCALE,
{
    let mut i: usize = 0;
    assert(factors@.subrange(0, factors@.len() as int) =~= factors@);
    while i < factors.len()
        invariant
            i <= factors@.len(),
            factor_for(factors@.subrange(i as int, factors@.len() as int), rate) == factor_for(
                factors@,
                rate,
            ),
        decreases factors@.len() - i,
    {
        let ghost tail = factors@.subrange(i as int, factors@.len() as int);
        assert(tail.drop_first() =~= factors@.subrange(i + 1, factors@.len() as int));
        let f = factors[i];
        if f.rate == rate {
            return if f.factor > SMOOTHING_SCALE {
                SMOOTHING_SCALE
            } else {
                f.factor
            };
        }
        i = i + 1;
    }
    0
}

/// The enemy after one smoothing step of its steering, if it steers.
pub open spec fn steered(c: Creep, fs: Seq<Smoothing>) -> Creep {
    match c.acceleration {
        Some(a) => Creep {
            velocity: Velocity {
                value: eased(c.velocity, a.direction, factor_for(fs, a.amount)),
                ..c.velocity
            },
            ..c
        },
        None => c,
    }
}

/// The enemy after moving for `dt` microseconds.
pub open spec fn moved(c: Creep, dt: int) -> Creep {
    Creep { position: advanced(c.position, c.velocity.value, dt), ..c }
}

impl World {
    /// Eases the velocity of every steering body (the player, rockets)
    /// toward its steering direction at full speed.
    pub fn apply_acceleration(&mut self, factors: &Vec<Smoothing>)
        requires
            old(self).wf(),
        ensures
            final(self).wf(),
            ({
                let o = old(self)@;
                let f = final(self)@;
                &&& f == (WorldView { player: f.player, enemies: f.enemies, ..o })
                &&& o.player is None ==> f.player is None
                &&& o.player matches Some(p) ==> f.player == Some(
                    Player {
                        velocity: Velocity {
                            value: eased(
                                p.velocity,
                                p.acceleration.direction,
                                factor_for(factors@, p.acceleration.amount),
                            ),
                            ..p.velocity
                        },
                        ..p
                    },
                )
                &&& f.enemies.len() == o.enemies.len()
                &&& forall|i: int|
                    0 <= i < o.enemies.len() ==> #[trigger] f.enemies[i] == steered(
                        o.enemies[i],
                        factors@,
                    )
            }),
    {
        if let Some(p) = self.player {
            let mut q = p;
            let alpha = smoothing_factor(factors, p.acceleration.amount);
            apply_acceleration(&mut q.velocity, &p.acceleration, alpha);
            self.player = Some(q);
        }
        let ghost before = self@;
        let mut i: usize = 0;
        while i < self.enemies.len()
            invariant
                i <= self@.enemies.len(),
                self.wf(),
                self@ == (WorldView { enemies: self@.enemies, ..before }),
                self@.enemies.len() == before.enemies.len(),
                forall|k: int| 0 <= k < i ==> #[trigger] self@.enemies[k] == steered(before.enemies[k], factors@),
                forall|k: int| i <= k < self@.enemies.len() ==> #[trigger] self@.enemies[k] == before.enemies[k],
            decreases self@.enemies.len() - i,
        {
            let c = self.enemies[i];
            assert(self@.enemies[i as int].wf());
            if let Some(a) = c.acceleration {
                let mut d = c;
                let alpha = smoothing_factor(factors, a.amount);
                apply_acceleration(&mut d.velocity, &a, alpha);
                self.enemies.set(i, d);
                proof {
                    assert forall|k: int| 0 <= k < self@.enemies.len() implies (#[trigger] self@.enemies[k]).wf() by {
                        if k != i {
                            assert(self@.enemies[k] == before.enemies[k] || self@.enemies[k] == steered(before.enemies[k], factors@));
                        }
                    }
                }
            }
            i = i + 1;
        }
    }

    /// Moves every body by the distance its velocity covers in `dt_us`.
    pub fn apply_velocity(&mut self, dt_us: u64)
        requires
            old(self).wf(),
        ensures
            final(self).wf(),
            ({
                let o = old(self)@;
                let f = final(self)@;
                &&& f == (WorldView { player: f.player, enemies: f.enemies, ..o })
                &&& o.player is None ==> f.player is None
                &&& o.player matches Some(p) ==> f.player == Some(
                    Player { position: advanced(p.position, p.velocity.value, dt_us as int), ..p },
                )
                &&& f.enemies.len() == o.enemies.len()
                &&& forall|i: int|
                    0 <= i < o.enemies.len() ==> #[trigger] f.enemies[i] == moved(
                        o.enemies[i],
                        dt_us as int,
                    )
            }),
    {
        if let Some(p) = self.player {
            let mut q = p;
            apply_velocity(&mut q.position, &p.velocity, dt_us);
            self.player = Some(q);
        }
        let ghost before = self@;
        let mut i: usize = 0;
        while i < self.enemies.len()
            invariant
                i <= self@.enemies.len(),
                self.wf(),
                self@ == (WorldView { enemies: self@.enemies, ..before }),
                self@.enemies.len() == before.enemies.len(),
                forall|k: int| 0 <= k < i ==> #[trigger] self@.enemies[k] == moved(before.enemies[k], dt_us as int),
                forall|k: int| i <= k < self@.enemies.len() ==> #[trigger] self@.enemies[k] == before.enemies[k],
            decreases self@.enemies.len() - i,
        {
            let c = self.enemies[i];
            assert(self@.enemies[i as int].wf());
            let mut d = c;
            apply_velocity(&mut d.position, &c.velocity, dt_us);
            self.enemies.set(i, d);
            proof {
                assert forall|k: int| 0 <= k < self@.enemies.len() implies (#[trigger] self@.enemies[k]).wf() by {
                    if k != i {
                        assert(self@.enemies[k] == before.enemies[k] || self@.enemies[k] == moved(before.enemies[k], dt_us as int));
                    }
                }
            }
            i = i + 1;
        }
    }
}

} // verus!
