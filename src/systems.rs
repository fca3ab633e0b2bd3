//! Per-tick rules: the boundary sweep, rockets turning and expiring, the
//! collision check, and the player's steering and bounds.
use vstd::prelude::*;
use crate::geometry::{Vec2, norm2, offset, offset_to};
use crate::movement::Acceleration;
use crate::timer::{TimerMode, ticked};
use crate::world::{
    Creep, ENEMY_DESPAWN_RADIUS, NANOS_PER_UNIT, PLAYER_ACCELERATION, PLAYER_DRAG, PLAYER_SIZE,
    Player, State, WORLD_BOUNDARY, World, WorldView,
};

verus! {

/// `c` lies within the despawn radius.
pub open spec fn in_bounds(c: Creep) -> bool {
    c.position.norm2() <= ENEMY_DESPAWN_RADIUS * ENEMY_DESPAWN_RADIUS
}

/// The enemies of `s` that lie within the despawn radius, in order.
pub open spec fn within_bounds(s: Seq<Creep>) -> Seq<Creep>
    decreases s.len(),
{
    if s.len() == 0 {
        s
    } else {
        let kept = within_bounds(s.drop_last());
        if in_bounds(s.last()) {
            kept.push(s.last())
        } else {
            kept
        }
    }
}

/// After the boundary sweep no enemy lies beyond the despawn radius.
pub proof fn lemma_sweep_in_bounds(s: Seq<Creep>)
    ensures
        forall|i: int| 0 <= i < within_bounds(s).len() ==> in_bounds(#[trigger] within_bounds(s)[i]),
    decreases s.len(),
{
    if s.len() > 0 {
        lemma_sweep_in_bounds(s.drop_last());
        let kept = within_bounds(s.drop_last());
        if in_bounds(s.last()) {
            assert forall|i: int| 0 <= i < kept.len() + 1 implies in_bounds(
                #[trigger] kept.push(s.last())[i],
            ) by {
                if i < kept.len() {
                    assert(kept.push(s.last())[i] == kept[i]);
                }
            }
        }
    }
}

/// The boundary sweep only removes: what it keeps was there before.
pub proof fn lemma_sweep_keeps(s: Seq<Creep>)
    ensures
        forall|i: int|
            0 <= i < within_bounds(s).len() ==> exists|j: int|
                0 <= j < s.len() && s[j] == #[trigger] within_bounds(s)[i],
    decreases s.len(),
{
    if s.len() > 0 {
        lemma_sweep_keeps(s.drop_last());
        let kept = within_bounds(s.drop_last());
        assert forall|i: int| 0 <= i < within_bounds(s).len() implies exists|j: int|
            0 <= j < s.len() && s[j] == #[trigger] within_bounds(s)[i] by {
            if i < kept.len() {
                assert(within_bounds(s)[i] == kept[i]);
                let j = choose|j: int|
                    0 <= j < s.drop_last().len() && s.drop_last()[j] == #[trigger] kept[i];
                assert(s[j] == s.drop_last()[j]);
            } else {
                assert(within_bounds(s)[i] == s[s.len() - 1]);
            }
        }
    }
}

/// Where a rocket steers: toward `target`.
pub open spec fn aim(c: Creep, target: Vec2) -> Creep {
    match (c.heat_seeker, c.acceleration) {
        (Some(_), Some(a)) => Creep {
            acceleration: Some(Acceleration { direction: offset(c.position, target), ..a }),
            ..c
        },
        _ => c,
    }
}

/// The enemy after its lifetime has run `delta` longer, unless that ends it.
pub open spec fn aged(c: Creep, delta: int) -> Option<Creep> {
    match c.heat_seeker {
        Some(t) => if ticked(t, delta).1 {
            None
        } else {
            Some(Creep { heat_seeker: Some(ticked(t, delta).0), ..c })
        },
        None => Some(c),
    }
}

/// The enemies of `s` whose lifetime does not end within `delta`, aged.
pub open spec fn survivors(s: Seq<Creep>, delta: int) -> Seq<Creep>
    decreases s.len(),
{
    if s.len() == 0 {
        s
    } else {
        let kept = survivors(s.drop_last(), delta);
        match aged(s.last(), delta) {
            Some(c) => kept.push(c),
            None => kept,
        }
    }
}

/// The enemy's lifetime, if it has one, ends once and for all.
pub open spec fn lifetime_once(c: Creep) -> bool {
    c.heat_seeker matches Some(t) ==> t.mode == TimerMode::Once
}

/// The enemy's lifetime, if it has one, has not ended.
pub open spec fn lifetime_running(c: Creep) -> bool {
    c.heat_seeker matches Some(t) ==> t.elapsed_us < t.duration_us
}

/// No rocket outlives its lifetime: after the expiry sweep every remaining
/// lifetime is still running.
pub proof fn lemma_no_expired_survivor(s: Seq<Creep>, delta: int)
    requires
        delta >= 0,
        forall|i: int| 0 <= i < s.len() ==> lifetime_once(#[trigger] s[i]),
    ensures
        forall|i: int|
            0 <= i < survivors(s, delta).len() ==> lifetime_running(
                #[trigger] survivors(s, delta)[i],
            ),
    decreases s.len(),
{
    if s.len() > 0 {
        assert forall|i: int| 0 <= i < s.drop_last().len() implies lifetime_once(
            #[trigger] s.drop_last()[i],
        ) by {
            assert(s.drop_last()[i] == s[i]);
        }
        lemma_no_expired_survivor(s.drop_last(), delta);
        assert(lifetime_once(s[s.len() - 1]));
        let kept = survivors(s.drop_last(), delta);
        if let Some(c) = aged(s.last(), delta) {
            assert(lifetime_running(c));
            assert forall|i: int| 0 <= i < kept.len() + 1 implies lifetime_running(
                #[trigger] kept.push(c)[i],
            ) by {
                if i < kept.len() {
                    assert(kept.push(c)[i] == kept[i]);
                }
            }
        }
    }
}

/// Half the side of the player's body, in nano-units.
pub open spec fn player_half() -> int {
    PLAYER_SIZE * NANOS_PER_UNIT / 2
}

/// Half the side of an enemy's body, in nano-units.
pub open spec fn creep_half(c: Creep) -> int {
    c.kind.size_spec() * NANOS_PER_UNIT / 2
}

/// The axis-aligned boxes centred at `a` and `b`, of half sides `ha` and
/// `hb`, meet (touching counts).
pub open spec fn boxes_meet(a: Vec2, ha: int, b: Vec2, hb: int) -> bool {
    &&& a.x - ha <= b.x + hb
    &&& a.x + ha >= b.x - hb
    &&& a.y - ha <= b.y + hb
    &&& a.y + ha >= b.y - hb
}

/// The enemy `c` touches the player `p`.
pub open spec fn hits(p: Player, c: Creep) -> bool {
    boxes_meet(p.position, player_half(), c.position, creep_half(c))
}

/// `v` held within `-bound..=bound`.
pub open spec fn clamp_coord(v: int, bound: int) -> int {
    if v < -bound {
        -bound
    } else if v > bound {
        bound
    } else {
        v
    }
}

/// Steering from the arrow keys held: each pair of opposite keys gives one
/// axis of the direction; velocity follows it, or dies down when no key
/// counts, at the player's rates.
pub open spec fn steering(left: bool, right: bool, up: bool, down: bool) -> Acceleration {
    let x = (if right { 1int } else { 0 }) - (if left { 1int } else { 0 });
    let y = (if up { 1int } else { 0 }) - (if down { 1int } else { 0 });
    Acceleration {
        direction: Vec2 { x: x as i64, y: y as i64 },
        amount: if x != 0 || y != 0 {
            PLAYER_ACCELERATION
        } else {
            PLAYER_DRAG
        },
    }
}

fn meets(a: Vec2, ha: i64, b: Vec2, hb: i64) -> (r: bool)
    requires
        0 <= ha <= NANOS_PER_UNIT * 100,
        0 <= hb <= NANOS_PER_UNIT * 100,
    ensures
        r == boxes_meet(a, ha as int, b, hb as int),
{
    let ax = a.x as i128;
    let ay = a.y as i128;
    let bx = b.x as i128;
    let by = b.y as i128;
    let ha = ha as i128;
    let hb = hb as i128;
    ax - ha <= bx + hb && ax + ha >= bx - hb && ay - ha <= by + hb && ay + ha >= by - hb
}

fn clamp_to(v: i64, bound: i64) -> (r: i64)
    requires
        bound >= 0,
    ensures
        r == clamp_coord(v as int, bound as int),
{
    if v < -bound {
        -bound
    } else if v > bound {
        bound
    } else {
        v
    }
}

impl World {
    /// Removes the enemies that lie beyond the despawn radius.
    pub fn despawn_out_of_bounds_enemies(&mut self)
        requires
            old(self).wf(),
        ensures
            final(self).wf(),
            final(self)@ == (WorldView { enemies: within_bounds(old(self)@.enemies), ..old(self)@ }),
    {
        let mut kept: Vec<Creep> = Vec::new();
        let mut i: usize = 0;
        let limit: u128 = ENEMY_DESPAWN_RADIUS as u128 * ENEMY_DESPAWN_RADIUS as u128;
        while i < self.enemies.len()
            invariant
                i <= self@.enemies.len(),
                self.wf(),
                kept@ == within_bounds(self@.enemies.subrange(0, i as int)),
                forall|k: int| 0 <= k < kept@.len() ==> (#[trigger] kept@[k]).wf(),
                limit == ENEMY_DESPAWN_RADIUS * ENEMY_DESPAWN_RADIUS,
            decreases self@.enemies.len() - i,
        {
            let c = self.enemies[i];
            let ghost s = self@.enemies.subrange(0, i + 1);
            assert(s.drop_last() =~= self@.enemies.subrange(0, i as int));
            assert(self@.enemies[i as int].wf());
            if norm2(c.position) <= limit {
                kept.push(c);
            }
            i = i + 1;
        }
        assert(self@.enemies.subrange(0, i as int) =~= self@.enemies);
        self.enemies = kept;
    }

    /// Turns every rocket toward the player, when there is one.
    pub fn handle_heatseeker_acceleration(&mut self)
        requires
            old(self).wf(),
        ensures
            final(self).wf(),
            old(self).player is None ==> final(self)@ == old(self)@,
            old(self).player matches Some(p) ==> {
                &&& final(self)@ == (WorldView { enemies: final(self)@.enemies, ..old(self)@ })
                &&& final(self)@.enemies.len() == old(self)@.enemies.len()
                &&& forall|i: int|
                    0 <= i < old(self)@.enemies.len() ==> #[trigger] final(self)@.enemies[i]
                        == aim(old(self)@.enemies[i], p.position)
            },
    {
        let target = match self.player {
            Some(p) => p.position,
            None => {
                return;
            },
        };
        let ghost before = self@;
        let mut i: usize = 0;
        while i < self.enemies.len()
            invariant
                i <= self@.enemies.len(),
                self.wf(),
                self.player == before.player,
                self.player matches Some(p) && p.position == target,
                self@ == (WorldView { enemies: self@.enemies, ..before }),
                self@.enemies.len() == before.enemies.len(),
                forall|k: int| 0 <= k < i ==> #[trigger] self@.enemies[k] == aim(before.enemies[k], target),
                forall|k: int| i <= k < self@.enemies.len() ==> #[trigger] self@.enemies[k] == before.enemies[k],
            decreases self@.enemies.len() - i,
        {
            let c = self.enemies[i];
            if c.heat_seeker.is_some() {
                if let Some(a) = c.acceleration {
                    let steered = Creep {
                        acceleration: Some(Acceleration::new(offset_to(c.position, target), a.amount)),
                        ..c
                    };
                    assert(steered == aim(c, target));
                    self.enemies.set(i, steered);
                }
            }
            i = i + 1;
        }
    }

    /// Runs every rocket's lifetime on by `delta_us` and removes the rockets
    /// whose lifetime ends.
    pub fn handle_heatseeker_destruction(&mut self, delta_us: u64)
        requires
            old(self).wf(),
        ensures
            final(self).wf(),
            final(self)@ == (WorldView {
                enemies: survivors(old(self)@.enemies, delta_us as int),
                ..old(self)@
            }),
            forall|i: int|
                0 <= i < final(self)@.enemies.len() ==> lifetime_running(
                    #[trigger] final(self)@.enemies[i],
                ),
    {
        proof {
            assert forall|i: int| 0 <= i < self@.enemies.len() implies lifetime_once(
                #[trigger] self@.enemies[i],
            ) by {
                assert(self@.enemies[i].wf());
            }
            lemma_no_expired_survivor(self@.enemies, delta_us as int);
        }
        let mut kept: Vec<Creep> = Vec::new();
        let mut i: usize = 0;
        while i < self.enemies.len()
            invariant
                i <= self@.enemies.len(),
                self.wf(),
                kept@ == survivors(self@.enemies.subrange(0, i as int), delta_us as int),
                forall|k: int| 0 <= k < kept@.len() ==> (#[trigger] kept@[k]).wf(),
            decreases self@.enemies.len() - i,
        {
            let c = self.enemies[i];
            let ghost s = self@.enemies.subrange(0, i + 1);
            assert(s.drop_last() =~= self@.enemies.subrange(0, i as int));
            assert(self@.enemies[i as int].wf());
            match c.heat_seeker {
                Some(t) => {
                    let mut t2 = t;
                    let done = t2.tick(delta_us);
                    if !done {
                        kept.push(Creep { heat_seeker: Some(t2), ..c });
                    }
                },
                None => {
                    kept.push(c);
                },
            }
            i = i + 1;
        }
        assert(self@.enemies.subrange(0, i as int) =~= self@.enemies);
        self.enemies = kept;
    }

    /// Ends the run when some enemy touches the player; checking stops at the
    /// first contact.
    pub fn collide(&mut self)
        ensures
            final(self)@ == (WorldView { state: final(self)@.state, ..old(self)@ }),
            final(self)@.state == if old(self).player matches Some(p) && exists|i: int|
                0 <= i < old(self)@.enemies.len() && hits(p, #[trigger] old(self)@.enemies[i]) {
                State::GameOver
            } else {
                old(self)@.state
            },
    {
        let p = match self.player {
            Some(p) => p,
            None => {
                return;
            },
        };
        let mut i: usize = 0;
        while i < self.enemies.len()
            invariant
                i <= self@.enemies.len(),
                self.player == Some(p),
                self@ == old(self)@,
                forall|k: int| 0 <= k < i ==> !hits(p, #[trigger] self@.enemies[k]),
            decreases self@.enemies.len() - i,
        {
            let c = self.enemies[i];
            let half = c.kind.size() as i64 * NANOS_PER_UNIT / 2;
            if meets(p.position, PLAYER_SIZE * NANOS_PER_UNIT / 2, c.position, half) {
                self.state = State::GameOver;
                return;
            }
            i = i + 1;
        }
    }

    /// Keeps the player inside the world.
    pub fn clamp_player(&mut self)
        requires
            old(self).wf(),
        ensures
            final(self).wf(),
            old(self).player is None ==> final(self)@ == old(self)@,
            old(self).player matches Some(p) ==> final(self)@ == (WorldView {
                player: Some(
                    Player {
                        position: Vec2 {
                            x: clamp_coord(p.position.x as int, WORLD_BOUNDARY as int) as i64,
                            y: clamp_coord(p.position.y as int, WORLD_BOUNDARY as int) as i64,
                        },
                        ..p
                    },
                ),
                ..old(self)@
            }),
    {
        if let Some(p) = self.player {
            let x = clamp_to(p.position.x, WORLD_BOUNDARY);
            let y = clamp_to(p.position.y, WORLD_BOUNDARY);
            self.player = Some(Player { position: Vec2 { x, y }, ..p });
        }
    }

    /// Sets the player's steering from the arrow keys held.
    pub fn player_movement(&mut self, left: bool, right: bool, up: bool, down: bool)
        requires
            old(self).wf(),
        ensures
            final(self).wf(),
            old(self).player is None ==> final(self)@ == old(self)@,
            old(self).player matches Some(p) ==> final(self)@ == (WorldView {
                player: Some(Player { acceleration: steering(left, right, up, down), ..p }),
                ..old(self)@
            }),
    {
        if let Some(p) = self.player {
            let x: i64 = (if right { 1i64 } else { 0 }) - (if left { 1i64 } else { 0 });
            let y: i64 = (if up { 1i64 } else { 0 }) - (if down { 1i64 } else { 0 });
            let amount = if x != 0 || y != 0 {
                PLAYER_ACCELERATION
            } else {
                PLAYER_DRAG
            };
            self.player = Some(
                Player { acceleration: Acceleration::new(Vec2::new(x, y), amount), ..p },
            );
        }
    }
}

} // verus!
