//! The world of a run: the player, the enemies, the score, the spawn
//! director's state, and the systems that advance them tick by tick.
use vstd::prelude::*;
use crate::enemy::Enemy;
use crate::geometry::{Vec2, scale_to, scaled_vec};
use crate::director::burst_result;
use crate::kinematics::{Smoothing, factor_for, moved, steered};
use crate::movement::{Acceleration, Velocity, advanced, eased};
use crate::shooting::{reloaded, volleys};
use crate::spawning::{SpawnParameters, SpawnSettings, increased, initial_settings};
use crate::systems::{
    aim, clamp_coord, hits, in_bounds, lemma_sweep_in_bounds, lemma_sweep_keeps, lifetime_running,
    steering, survivors, within_bounds,
};
use crate::timer::{Timer, TimerMode, ticked};

verus! {

/// Nano-units of position in one world unit.
pub const NANOS_PER_UNIT: i64 = 1_000_000_000;
/// Milli-units per second of velocity in one world unit per second.
pub const MILLIS_PER_UNIT: u32 = 1_000;
/// Side of the square world, in world units.
pub const WORLD_SIZE: i64 = 1000;
/// How far from the centre the player may go on each axis, in nano-units:
/// half the world less half the player.
pub const WORLD_BOUNDARY: i64 = 490_000_000_000;
/// Distance from the centre at which enemies appear, in nano-units: half
/// the world and a margin of ten units, just outside what the player sees.
pub const ENEMY_SPAWN_RADIUS: u64 = 510_000_000_000;
/// Distance from the centre beyond which enemies are removed, in nano-units:
/// one unit beyond the spawn radius.
pub const ENEMY_DESPAWN_RADIUS: u64 = 511_000_000_000;

/// Side of the player's square body, in world units.
pub const PLAYER_SIZE: i64 = 20;
/// The player's top speed, in milli-units per second.
pub const PLAYER_MAX_SPEED: u32 = 300_000;
/// How quickly the player's velocity follows the keys while one is held.
pub const PLAYER_ACCELERATION: u32 = 50;
/// How quickly the player's velocity dies down once no key is held.
pub const PLAYER_DRAG: u32 = 50;
/// How quickly a rocket's velocity turns toward the player.
pub const ROCKET_ACCELERATION: u32 = 1;

/// Period of a cannon's bursts, in microseconds.
pub const CANNON_PERIOD_US: u64 = 2_000_000;
/// Period of a rocket ship's launches, in microseconds.
pub const ROCKET_SHIP_PERIOD_US: u64 = 3_000_000;
/// Lifetime of a rocket, in microseconds.
pub const ROCKET_LIFETIME_US: u64 = 5_000_000;
/// Bullets in a cannon's burst.
pub const BURST_SIZE: u32 = 12;
/// Time between score points, in microseconds.
pub const SCORE_PERIOD_US: u64 = 1_000_000;
/// Pause before the first burst of enemies, in microseconds.
pub const INITIAL_SPAWN_INTERVAL_US: u64 = 2_000_000;

/// The two states of a run.
#[derive(Clone, Copy, Debug, PartialEq, Eq, Hash, Structural)]
pub enum State {
    Playing,
    GameOver,
}

/// Points earned in the current run.
#[derive(Clone, Copy, Debug, PartialEq, Eq, Structural)]
pub struct Score(pub u32);

/// The player's body.
#[derive(Clone, Copy, Debug, PartialEq, Eq, Structural)]
pub struct Player {
    pub position: Vec2,
    pub velocity: Velocity,
    pub acceleration: Acceleration,
}

/// An enemy: its kind, its motion, and the timers that its kind carries (a
/// shooting timer for cannons and rocket ships, a lifetime for rockets).
#[derive(Clone, Copy, Debug, PartialEq, Eq, Structural)]
pub struct Creep {
    pub kind: Enemy,
    pub position: Vec2,
    pub velocity: Velocity,
    pub acceleration: Option<Acceleration>,
    pub shoot_timer: Option<Timer>,
    pub heat_seeker: Option<Timer>,
}

/// Where a spawned enemy appears, as a direction from the centre, and the
/// direction it sets off in.
#[derive(Clone, Copy, Debug, PartialEq, Eq, Structural)]
pub struct SpawnHeading {
    pub outward: Vec2,
    pub course: Vec2,
}

/// The arrow keys held during a tick.
#[derive(Clone, Copy, Debug, PartialEq, Eq, Structural)]
pub struct Keys {
    pub left: bool,
    pub right: bool,
    pub up: bool,
    pub down: bool,
}

impl Creep {
    /// The enemy moves no faster than its kind's speed, which is the speed
    /// its steering aims for; its timers can run, and a lifetime ends once
    /// and for all.
    pub open spec fn wf(self) -> bool {
        &&& self.velocity.wf()
        &&& self.velocity.max == self.kind.speed_spec() * MILLIS_PER_UNIT
        &&& (self.shoot_timer matches Some(t) ==> t.wf())
        &&& (self.heat_seeker matches Some(t) ==> t.wf() && t.mode == TimerMode::Once)
    }
}

impl Player {
    pub open spec fn wf(self) -> bool {
        &&& self.velocity.wf()
        &&& self.velocity.max == PLAYER_MAX_SPEED
    }
}

/// An enemy of kind `kind` that has just appeared at `position`, setting off
/// along `direction` at its kind's speed.
pub open spec fn spawned(kind: Enemy, position: Vec2, direction: Vec2) -> Creep {
    let speed = kind.speed_spec() * MILLIS_PER_UNIT;
    Creep {
        kind,
        position,
        velocity: Velocity { value: scaled_vec(direction, speed), max: speed as u32 },
        acceleration: if kind == Enemy::Rocket {
            Some(Acceleration { direction: Vec2 { x: 0, y: 0 }, amount: ROCKET_ACCELERATION })
        } else {
            None
        },
        shoot_timer: match kind {
            Enemy::Cannon => Some(
                Timer { duration_us: CANNON_PERIOD_US, elapsed_us: 0, mode: TimerMode::Repeating },
            ),
            Enemy::RocketShip => Some(
                Timer {
                    duration_us: ROCKET_SHIP_PERIOD_US,
                    elapsed_us: 0,
                    mode: TimerMode::Repeating,
                },
            ),
            _ => None,
        },
        heat_seeker: if kind == Enemy::Rocket {
            Some(Timer { duration_us: ROCKET_LIFETIME_US, elapsed_us: 0, mode: TimerMode::Once })
        } else {
            None
        },
    }
}

/// A new enemy of kind `kind` at `position`, setting off along `direction`
/// at its kind's speed, with the timers and steering that its kind carries.
pub fn spawn_single_enemy(kind: Enemy, position: Vec2, direction: Vec2) -> (r: Creep)
    ensures
        r == spawned(kind, position, direction),
        r.wf(),
{
    let speed = kind.speed() * MILLIS_PER_UNIT;
    let value = scale_to(direction, speed as u64);
    let acceleration = if kind == Enemy::Rocket {
        Some(Acceleration::new(Vec2::zero(), ROCKET_ACCELERATION))
    } else {
        None
    };
    let shoot_timer = match kind {
        Enemy::Cannon => Some(Timer::new(CANNON_PERIOD_US, TimerMode::Repeating)),
        Enemy::RocketShip => Some(Timer::new(ROCKET_SHIP_PERIOD_US, TimerMode::Repeating)),
        _ => None,
    };
    let heat_seeker = if kind == Enemy::Rocket {
        Some(Timer::new(ROCKET_LIFETIME_US, TimerMode::Once))
    } else {
        None
    };
    Creep {
        kind,
        position,
        velocity: Velocity::new(value, speed),
        acceleration,
        shoot_timer,
        heat_seeker,
    }
}

/// The player as every run starts: at the centre, at rest, with no steering.
pub open spec fn fresh_player() -> Player {
    Player {
        position: Vec2 { x: 0, y: 0 },
        velocity: Velocity { value: Vec2 { x: 0, y: 0 }, max: PLAYER_MAX_SPEED },
        acceleration: Acceleration { direction: Vec2 { x: 0, y: 0 }, amount: 0 },
    }
}

/// What a world amounts to.
pub struct WorldView {
    pub state: State,
    pub score: u32,
    pub score_timer: Timer,
    pub spawn_timer: Timer,
    pub spawn: SpawnSettings,
    pub player: Option<Player>,
    pub enemies: Seq<Creep>,
}

/// The world of a run.
pub struct World {
    pub state: State,
    pub score: Score,
    pub score_timer: Timer,
    pub spawn_timer: Timer,
    pub spawn_parameters: SpawnParameters,
    pub player: Option<Player>,
    pub enemies: Vec<Creep>,
}

impl View for World {
    type V = WorldView;

    open spec fn view(&self) -> WorldView {
        WorldView {
            state: self.state,
            score: self.score.0,
            score_timer: self.score_timer,
            spawn_timer: self.spawn_timer,
            spawn: self.spawn_parameters@,
            player: self.player,
            enemies: self.enemies@,
        }
    }
}

impl WorldView {
    /// The spawn parameters and timers are consistent, and every body moves
    /// no faster than its top speed.
    pub open spec fn wf(self) -> bool {
        &&& self.spawn.wf()
        &&& self.score_timer.wf()
        &&& self.spawn_timer.wf()
        &&& (self.player matches Some(p) ==> p.wf())
        &&& forall|i: int| 0 <= i < self.enemies.len() ==> (#[trigger] self.enemies[i]).wf()
    }
}

/// The world as the entry into a run leaves it: the score and its timer back
/// to zero, the spawn parameters back to their initial values, no enemies,
/// and a fresh player in place of any old one. The spawn timer runs on.
pub open spec fn restarted(w: WorldView) -> WorldView {
    WorldView {
        state: State::Playing,
        score: 0,
        score_timer: Timer { elapsed_us: 0, ..w.score_timer },
        spawn_timer: w.spawn_timer,
        spawn: initial_settings(),
        player: Some(fresh_player()),
        enemies: Seq::empty(),
    }
}

/// Entering a run twice in a row leaves the world as entering it once does:
/// the initial spawn parameters, a score of zero, exactly one player and no
/// enemies.
pub proof fn lemma_restart_idempotent(w: WorldView)
    ensures
        restarted(restarted(w)) == restarted(w),
        restarted(w).spawn == initial_settings(),
        restarted(w).score == 0,
        restarted(w).player == Some(fresh_player()),
        restarted(w).enemies.len() == 0,
{
}

impl World {
    pub open spec fn wf(&self) -> bool {
        self@.wf()
    }

    /// A world at the start of its first run.
    pub fn new() -> (r: World)
        ensures
            r.wf(),
            r@ == restarted(
                WorldView {
                    state: State::Playing,
                    score: 0,
                    score_timer: Timer {
                        duration_us: SCORE_PERIOD_US,
                        elapsed_us: 0,
                        mode: TimerMode::Repeating,
                    },
                    spawn_timer: Timer {
                        duration_us: INITIAL_SPAWN_INTERVAL_US,
                        elapsed_us: 0,
                        mode: TimerMode::Repeating,
                    },
                    spawn: initial_settings(),
                    player: None,
                    enemies: Seq::empty(),
                },
            ),
    {
        let mut w = World {
            state: State::Playing,
            score: Score(0),
            score_timer: Timer::new(SCORE_PERIOD_US, TimerMode::Repeating),
            spawn_timer: Timer::new(INITIAL_SPAWN_INTERVAL_US, TimerMode::Repeating),
            spawn_parameters: SpawnParameters::default(),
            player: None,
            enemies: Vec::new(),
        };
        assert(w@.enemies =~= Seq::<Creep>::empty());
        w.enter_playing();
        w
    }

    /// The entry into a run: removes every enemy, puts the score, its timer
    /// and the spawn parameters back to their start, and replaces the player
    /// by a fresh one.
    pub fn enter_playing(&mut self)
        requires
            old(self).wf(),
        ensures
            final(self).wf(),
            final(self)@ == restarted(old(self)@),
    {
        self.state = State::Playing;
        self.despawn_all_enemies();
        self.spawn_parameters.reset_difficulty();
        self.reset_score();
        self.spawn_player();
        assert(self@.enemies =~= Seq::<Creep>::empty());
    }

    /// Removes every enemy.
    pub fn despawn_all_enemies(&mut self)
        ensures
            final(self)@ == (WorldView { enemies: Seq::empty(), ..old(self)@ }),
    {
        self.enemies = Vec::new();
        assert(self@.enemies =~= Seq::<Creep>::empty());
    }

    /// Puts the score and its timer back to zero.
    pub fn reset_score(&mut self)
        ensures
            final(self)@ == (WorldView {
                score: 0,
                score_timer: Timer { elapsed_us: 0, ..old(self)@.score_timer },
                ..old(self)@
            }),
    {
        self.score = Score(0);
        self.score_timer.reset();
    }

    /// Replaces the player, if there is one, by a fresh one at the centre.
    pub fn spawn_player(&mut self)
        ensures
            final(self)@ == (WorldView { player: Some(fresh_player()), ..old(self)@ }),
    {
        self.player = Some(
            Player {
                position: Vec2::zero(),
                velocity: Velocity::new(Vec2::zero(), PLAYER_MAX_SPEED),
                acceleration: Acceleration::new(Vec2::zero(), 0),
            },
        );
    }
}

impl World {
    /// Runs the score timer on by `delta_us`; each time it runs out the
    /// score rises by one, up to the largest score, and the raised score is
    /// returned.
    pub fn update_score(&mut self, delta_us: u64) -> (raised: Option<u32>)
        requires
            old(self).wf(),
        ensures
            final(self).wf(),
            ({
                let (t, finished) = ticked(old(self)@.score_timer, delta_us as int);
                let o = old(self)@;
                let s = if finished && o.score < u32::MAX {
                    o.score + 1
                } else {
                    o.score as int
                };
                &&& final(self)@ == (WorldView { score: s as u32, score_timer: t, ..o })
                &&& raised == if finished && o.score < u32::MAX {
                    Some(s as u32)
                } else {
                    None::<u32>
                }
            }),
    {
        if self.score_timer.tick(delta_us) && self.score.0 < u32::MAX {
            self.score = Score(self.score.0 + 1);
            Some(self.score.0)
        } else {
            None
        }
    }

    /// Hardens the spawn parameters for a score that has just risen to
    /// `new_score`.
    pub fn increase_difficulty(&mut self, new_score: u32)
        requires
            old(self).wf(),
        ensures
            final(self).wf(),
            final(self)@ == (WorldView {
                spawn: increased(old(self)@.spawn, new_score as int),
                ..old(self)@
            }),
    {
        self.spawn_parameters.increase_difficulty(new_score);
    }

    /// On the restart signal, while the run is over, enters a new run.
    pub fn check_restart(&mut self, restart: bool)
        requires
            old(self).wf(),
        ensures
            final(self).wf(),
            final(self)@ == if restart && old(self)@.state == State::GameOver {
                restarted(old(self)@)
            } else {
                old(self)@
            },
    {
        if restart && self.state == State::GameOver {
            self.enter_playing();
        }
    }

    /// One tick of `dt_us` microseconds while the run is on: steering from
    /// the keys, the kinematics step (velocities eased, then positions
    /// advanced), the player kept inside the world, the spawn director,
    /// shooting, rockets turning and expiring, the boundary sweep, the
    /// collision check, and the score with its difficulty feedback. The new
    /// world is the composition of those steps, the burst being any that
    /// `burst_result` admits. Once the run is over a tick changes nothing.
    pub fn tick(
        &mut self,
        dt_us: u64,
        keys: Keys,
        factors: &Vec<Smoothing>,
        headings: &Vec<SpawnHeading>,
    )
        requires
            old(self).wf(),
            forall|j: int| 0 <= j < headings@.len() ==> (#[trigger] headings@[j]).outward.norm2() > 0,
        ensures
            final(self).wf(),
            old(self)@.state != State::Playing ==> final(self)@ == old(self)@,
            old(self)@.state == State::Playing ==> exists|w: WorldView, count: int|
                {
                    &&& burst_result(
                        before_burst(old(self)@, keys, factors@, dt_us as int),
                        w,
                        dt_us as int,
                        headings@,
                        count,
                    )
                    &&& final(self)@ == after_burst(w, dt_us as int)
                },
            old(self)@.state == State::Playing ==> {
                let o = old(self)@;
                let f = final(self)@;
                &&& forall|i: int| 0 <= i < f.enemies.len() ==> in_bounds(#[trigger] f.enemies[i])
                &&& forall|i: int|
                    0 <= i < f.enemies.len() ==> lifetime_running(#[trigger] f.enemies[i])
                &&& (f.player is Some) == (o.player is Some)
                &&& f.state == State::Playing || f.state == State::GameOver
                &&& f.score == o.score || f.score == o.score + 1
                &&& f.spawn == if f.score == o.score {
                    o.spawn
                } else {
                    increased(o.spawn, f.score as int)
                }
            },
    {
        if self.state != State::Playing {
            return;
        }
        let ghost o = self@;
        let ghost fs = factors@;
        let ghost dt = dt_us as int;
        self.player_movement(keys.left, keys.right, keys.up, keys.down);
        assert(self@ == steer_step(o, keys));
        let ghost s1 = self@;
        self.apply_acceleration(factors);
        assert(self@.enemies =~= accelerate_step(s1, fs).enemies);
        assert(self@ == accelerate_step(s1, fs));
        let ghost s2 = self@;
        self.apply_velocity(dt_us);
        assert(self@.enemies =~= move_step(s2, dt).enemies);
        assert(self@ == move_step(s2, dt));
        self.clamp_player();
        assert(self@ == before_burst(o, keys, fs, dt));
        let ghost s3 = self@;
        let count = self.spawn_enemies(dt_us, headings);
        let ghost w = self@;
        assert(burst_result(s3, w, dt, headings@, count as int));
        self.handle_shooting(dt_us);
        assert(self@.enemies =~= shoot_step(w, dt).enemies);
        assert(self@ == shoot_step(w, dt));
        let ghost s4 = self@;
        self.handle_heatseeker_acceleration();
        assert(self@.enemies =~= aim_step(s4).enemies);
        assert(self@ == aim_step(s4));
        self.handle_heatseeker_destruction(dt_us);
        let ghost unswept = self@.enemies;
        let ghost s5 = self@;
        self.despawn_out_of_bounds_enemies();
        proof {
            lemma_sweep_in_bounds(unswept);
            lemma_sweep_keeps(unswept);
            assert forall|i: int| 0 <= i < self@.enemies.len() implies lifetime_running(
                #[trigger] self@.enemies[i],
            ) by {
                let j = choose|j: int| 0 <= j < unswept.len() && unswept[j] == self@.enemies[i];
                assert(lifetime_running(unswept[j]));
            }
        }
        self.collide();
        let ghost s6 = self@;
        assert(s6 == collide_step(sweep_step(expire_step(aim_step(shoot_step(w, dt)), dt))));
        if let Some(new_score) = self.update_score(dt_us) {
            self.increase_difficulty(new_score);
        }
        assert(self@ == score_step(s6, dt));
    }
}

/// The player's steering set from the keys held.
pub open spec fn steer_step(w: WorldView, keys: Keys) -> WorldView {
    match w.player {
        Some(p) => WorldView {
            player: Some(
                Player { acceleration: steering(keys.left, keys.right, keys.up, keys.down), ..p },
            ),
            ..w
        },
        None => w,
    }
}

/// Every steering body's velocity eased toward its steering direction.
pub open spec fn accelerate_step(w: WorldView, fs: Seq<Smoothing>) -> WorldView {
    WorldView {
        player: match w.player {
            Some(p) => Some(
                Player {
                    velocity: Velocity {
                        value: eased(
                            p.velocity,
                            p.acceleration.direction,
                            factor_for(fs, p.acceleration.amount),
                        ),
                        ..p.velocity
                    },
                    ..p
                },
            ),
            None => None,
        },
        enemies: Seq::new(w.enemies.len(), |i: int| steered(w.enemies[i], fs)),
        ..w
    }
}

/// Every body moved by its velocity for `dt` microseconds.
pub open spec fn move_step(w: WorldView, dt: int) -> WorldView {
    WorldView {
        player: match w.player {
            Some(p) => Some(Player { position: advanced(p.position, p.velocity.value, dt), ..p }),
            None => None,
        },
        enemies: Seq::new(w.enemies.len(), |i: int| moved(w.enemies[i], dt)),
        ..w
    }
}

/// The player held inside the world.
pub open spec fn clamp_step(w: WorldView) -> WorldView {
    match w.player {
        Some(p) => WorldView {
            player: Some(
                Player {
                    position: Vec2 {
                        x: clamp_coord(p.position.x as int, WORLD_BOUNDARY as int) as i64,
                        y: clamp_coord(p.position.y as int, WORLD_BOUNDARY as int) as i64,
                    },
                    ..p
                },
            ),
            ..w
        },
        None => w,
    }
}

/// The steps of a tick before the spawn director.
pub open spec fn before_burst(w: WorldView, keys: Keys, fs: Seq<Smoothing>, dt: int) -> WorldView {
    clamp_step(move_step(accelerate_step(steer_step(w, keys), fs), dt))
}

/// Where shooters aim: the player's position, if there is a player.
pub open spec fn target_of(w: WorldView) -> Option<Vec2> {
    match w.player {
        Some(p) => Some(p.position),
        None => None,
    }
}

/// Every shooting timer run on; what they fire joins the enemies.
pub open spec fn shoot_step(w: WorldView, dt: int) -> WorldView {
    WorldView {
        enemies: Seq::new(w.enemies.len(), |i: int| reloaded(w.enemies[i], dt)) + volleys(
            w.enemies,
            dt,
            target_of(w),
        ),
        ..w
    }
}

/// Every rocket turned toward the player, if there is one.
pub open spec fn aim_step(w: WorldView) -> WorldView {
    match w.player {
        Some(p) => WorldView {
            enemies: Seq::new(w.enemies.len(), |i: int| aim(w.enemies[i], p.position)),
            ..w
        },
        None => w,
    }
}

/// Every lifetime run on; the rockets whose lifetime ends are gone.
pub open spec fn expire_step(w: WorldView, dt: int) -> WorldView {
    WorldView { enemies: survivors(w.enemies, dt), ..w }
}

/// The enemies beyond the despawn radius removed.
pub open spec fn sweep_step(w: WorldView) -> WorldView {
    WorldView { enemies: within_bounds(w.enemies), ..w }
}

/// The run over if some enemy touches the player.
pub open spec fn collide_step(w: WorldView) -> WorldView {
    WorldView {
        state: if w.player matches Some(p) && exists|i: int|
            0 <= i < w.enemies.len() && hits(p, #[trigger] w.enemies[i]) {
            State::GameOver
        } else {
            w.state
        },
        ..w
    }
}

/// The score timer run on; a point scored, up to the largest score, hardens
/// the spawn parameters.
pub open spec fn score_step(w: WorldView, dt: int) -> WorldView {
    let (t, finished) = ticked(w.score_timer, dt);
    if finished && w.score < u32::MAX {
        WorldView {
            score: (w.score + 1) as u32,
            score_timer: t,
            spawn: increased(w.spawn, w.score + 1),
            ..w
        }
    } else {
        WorldView { score_timer: t, ..w }
    }
}

/// The steps of a tick from shooting on.
pub open spec fn after_burst(w: WorldView, dt: int) -> WorldView {
    score_step(collide_step(sweep_step(expire_step(aim_step(shoot_step(w, dt)), dt))), dt)
}

} // verus!
