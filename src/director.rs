//! The spawn director at work: bursts of enemies on the spawn circle.
use vstd::prelude::*;
use crate::enemy::Enemy;
use crate::geometry::{
    lemma_scaled_within, scale_to, scaled_vec,
};
use crate::random::chance;
use crate::spawning::{PERCENT, weight_in};
use crate::timer::{Timer, ticked};
use crate::world::{
    Creep, ENEMY_SPAWN_RADIUS, SpawnHeading, World, WorldView, spawn_single_enemy, spawned,
};

verus! {

/// `c` is a member of a burst spawned along `h`: of a kind that the table
/// can yield, at the spawn radius in the direction `h.outward`, setting off
/// along `h.course`.
pub open spec fn burst_member(c: Creep, h: SpawnHeading, table: Map<Enemy, u32>) -> bool {
    exists|kind: Enemy|
        {
            &&& c == spawned(kind, scaled_vec(h.outward, ENEMY_SPAWN_RADIUS as int), h.course)
            &&& ((forall|k: Enemy| weight_in(table, k) == 0) ==> kind == Enemy::Standard)
            &&& ((exists|k: Enemy| weight_in(table, k) > 0) ==> weight_in(table, kind) > 0)
        }
}

/// The enemy lies at the spawn radius up to rounding: its squared distance
/// from the centre is between `(R - 2)²` and `R²`.
pub open spec fn on_spawn_circle(c: Creep) -> bool {
    let r = ENEMY_SPAWN_RADIUS as int;
    (r - 2) * (r - 2) <= c.position.norm2() <= r * r
}

/// An enemy of a burst spawned along a nonzero heading appears at the spawn
/// radius, up to rounding.
pub proof fn lemma_spawn_on_radius(c: Creep, h: SpawnHeading, table: Map<Enemy, u32>)
    requires
        burst_member(c, h, table),
        h.outward.norm2() > 0,
    ensures
        on_spawn_circle(c),
{
    let r = ENEMY_SPAWN_RADIUS as int;
    lemma_scaled_within(h.outward, r);
}

/// `f` is the world `o` after the spawn timer has run `delta` longer and,
/// if it ran out, a burst of `count` enemies along `headings` (see
/// `World::spawn_enemies`).
pub open spec fn burst_result(
    o: WorldView,
    f: WorldView,
    delta: int,
    headings: Seq<SpawnHeading>,
    count: int,
) -> bool {
    let (t, finished) = ticked(o.spawn_timer, delta);
    let room = if o.spawn.max_spawns < headings.len() {
        o.spawn.max_spawns
    } else {
        headings.len() as int
    };
    &&& !finished ==> count == 0 && f == (WorldView { spawn_timer: t, ..o })
    &&& finished ==> {
        &&& f.spawn_timer == (Timer { duration_us: o.spawn.time_between_spawns as u64, ..t })
        &&& f.enemies.len() == o.enemies.len() + count
        &&& f.enemies.subrange(0, o.enemies.len() as int) == o.enemies
        &&& forall|j: int|
            0 <= j < count ==> burst_member(
                #[trigger] f.enemies[o.enemies.len() + j],
                headings[j],
                o.spawn.table,
            )
        &&& forall|j: int|
            0 <= j < count ==> on_spawn_circle(#[trigger] f.enemies[o.enemies.len() + j])
        &&& count <= room
        &&& room >= 1 ==> count >= 1
        &&& o.spawn.probability_spawn_another == 0 && room >= 1 ==> count == 1
        &&& o.spawn.probability_spawn_another == PERCENT ==> count == room
        &&& f == (WorldView { spawn_timer: f.spawn_timer, enemies: f.enemies, ..o })
    }
}

impl World {
    /// Advances the spawn timer by `delta_us`. When it runs out, spawns a
    /// burst: one enemy per heading, in order, for as long as a draw against
    /// the chance of another spawn succeeds, at most `max_spawns` and at most
    /// one per heading; the timer then takes the current pause between
    /// bursts as its duration. Returns how many enemies were spawned.
    pub fn spawn_enemies(&mut self, delta_us: u64, headings: &Vec<SpawnHeading>) -> (count: u32)
        requires
            old(self).wf(),
            forall|j: int| 0 <= j < headings@.len() ==> (#[trigger] headings@[j]).outward.norm2() > 0,
        ensures
            final(self).wf(),
            burst_result(old(self)@, final(self)@, delta_us as int, headings@, count as int),
    {
        let finished = self.spawn_timer.tick(delta_us);
        assert(self.spawn_timer == ticked(old(self)@.spawn_timer, delta_us as int).0);
        assert(self@ == (WorldView { spawn_timer: self.spawn_timer, ..old(self)@ }));
        if !finished {
            return 0;
        }
        let ghost before = self@;
        let p = self.spawn_parameters.probability_spawn_another;
        let max_spawns = self.spawn_parameters.max_spawns;
        let mut count: u32 = 0;
        let mut go_on = true;
        while go_on && count < max_spawns && (count as usize) < headings.len()
            invariant
                self.wf(),
                self@ == (WorldView { enemies: self@.enemies, ..before }),
                self.spawn_parameters.probability_spawn_another == p,
                self.spawn_parameters.max_spawns == max_spawns,
                p <= PERCENT,
                count <= max_spawns,
                count <= headings@.len(),
                self@.enemies.len() == before.enemies.len() + count,
                self@.enemies.subrange(0, before.enemies.len() as int) == before.enemies,
                forall|j: int|
                    0 <= j < count ==> burst_member(
                        #[trigger] self@.enemies[before.enemies.len() + j],
                        headings@[j],
                        before.spawn.table,
                    ),
                forall|j: int|
                    0 <= j < count ==> on_spawn_circle(
                        #[trigger] self@.enemies[before.enemies.len() + j],
                    ),
                forall|j: int| 0 <= j < headings@.len() ==> (#[trigger] headings@[j]).outward.norm2() > 0,
                !go_on ==> count >= 1,
                p == 0 && count >= 1 ==> !go_on && count == 1,
                p == PERCENT ==> go_on,
            decreases max_spawns - count,
        {
            let h = headings[count as usize];
            let kind = self.spawn_parameters.draw_enemy();
            let position = scale_to(h.outward, ENEMY_SPAWN_RADIUS);
            let creep = spawn_single_enemy(kind, position, h.course);
            let ghost prev = self@.enemies;
            self.enemies.push(creep);
            proof {
                assert(self@.enemies == prev.push(creep));
                assert(self@.enemies.subrange(0, before.enemies.len() as int) =~= prev.subrange(
                    0,
                    before.enemies.len() as int,
                ));
                assert(self@.enemies[before.enemies.len() + count] == creep);
                assert(burst_member(creep, headings@[count as int], before.spawn.table));
                lemma_spawn_on_radius(creep, headings@[count as int], before.spawn.table);
                assert forall|j: int| 0 <= j < count + 1 implies burst_member(
                    #[trigger] self@.enemies[before.enemies.len() + j],
                    headings@[j],
                    before.spawn.table,
                ) && on_spawn_circle(self@.enemies[before.enemies.len() + j]) by {
                    if j < count {
                        assert(self@.enemies[before.enemies.len() + j] == prev[before.enemies.len()
                            + j]);
                    }
                }
                assert forall|i: int| 0 <= i < self@.enemies.len() implies (
                #[trigger] self@.enemies[i]).wf() by {
                    if i < prev.len() {
                        assert(self@.enemies[i] == prev[i]);
                    }
                }
            }
            count = count + 1;
            go_on = chance(p, PERCENT);
        }
        self.spawn_timer.set_duration(self.spawn_parameters.time_between_spawns_us);
        count
    }
}

} // verus!
