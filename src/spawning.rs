//! The spawn director's parameters: the weighted table of enemy kinds, the
//! pace and size of bursts, and how they harden as the score rises.
use vstd::prelude::*;
use crate::enemy::Enemy;
use crate::random::roll_weight;
use crate::timer::MAX_DURATION_US;

verus! {

/// Hundredths in a certainty.
pub const PERCENT: u32 = 100;
/// How much more likely another spawn in a burst becomes per point of score.
pub const PROBABILITY_STEP: u32 = 3;
/// How much shorter the pause between bursts becomes per point of score.
pub const SPAWN_INTERVAL_STEP_US: u64 = 10_000;
/// The weight of standard enemies, which never changes.
pub const STANDARD_WEIGHT: u32 = 25;

/// No kind has two entries in the table.
pub open spec fn unique_kinds(t: Seq<(Enemy, u32)>) -> bool {
    forall|i: int, j: int| 0 <= i < t.len() && 0 <= j < t.len() && i != j ==> t[i].0 != t[j].0
}

/// Sum of all weights of a table.
pub open spec fn total_weight(t: Seq<(Enemy, u32)>) -> int
    decreases t.len(),
{
    if t.len() == 0 {
        0
    } else {
        t[0].1 + total_weight(t.drop_first())
    }
}

/// Walking the table and adding up weights, the first kind at which the sum
/// reaches `roll`; the standard kind where the sum never does.
pub open spec fn pick_from(t: Seq<(Enemy, u32)>, roll: int) -> Enemy
    decreases t.len(),
{
    if t.len() == 0 {
        Enemy::Standard
    } else if t[0].1 >= roll {
        t[0].0
    } else {
        pick_from(t.drop_first(), roll - t[0].1)
    }
}

/// A roll within the total weight lands on an entry of positive weight: a
/// kind weighted zero, or absent, is never drawn.
pub proof fn lemma_drawn_kind_has_weight(t: Seq<(Enemy, u32)>, roll: int)
    requires
        1 <= roll <= total_weight(t),
    ensures
        exists|i: int| 0 <= i < t.len() && t[i].0 == pick_from(t, roll) && t[i].1 > 0,
{
    lemma_pick_index(t, roll);
}

/// A table of total weight zero weights every entry zero; one of positive
/// total has an entry of positive weight.
proof fn lemma_total_weight_zero(t: Seq<(Enemy, u32)>)
    ensures
        total_weight(t) == 0 <==> forall|i: int| 0 <= i < t.len() ==> #[trigger] t[i].1 == 0,
    decreases t.len(),
{
    if t.len() > 0 {
        lemma_total_weight_zero(t.drop_first());
        lemma_total_weight_bound(t.drop_first());
        if total_weight(t) == 0 {
            assert forall|i: int| 0 <= i < t.len() implies #[trigger] t[i].1 == 0 by {
                if i > 0 {
                    assert(t[i] == t.drop_first()[i - 1]);
                }
            }
        } else if forall|i: int| 0 <= i < t.len() ==> #[trigger] t[i].1 == 0 {
            assert forall|i: int| 0 <= i < t.drop_first().len() implies #[trigger] t.drop_first()[i].1 == 0 by {
                assert(t.drop_first()[i] == t[i + 1]);
            }
            assert(t[0].1 == 0);
        }
    }
}

/// The entry that a roll within the total weight lands on.
proof fn lemma_pick_index(t: Seq<(Enemy, u32)>, roll: int) -> (i: int)
    requires
        1 <= roll <= total_weight(t),
    ensures
        0 <= i < t.len(),
        t[i].0 == pick_from(t, roll),
        t[i].1 > 0,
    decreases t.len(),
{
    if t.len() == 0 {
        0
    } else if t[0].1 >= roll {
        0
    } else {
        let j = lemma_pick_index(t.drop_first(), roll - t[0].1);
        j + 1
    }
}

proof fn lemma_total_weight_bound(t: Seq<(Enemy, u32)>)
    ensures
        0 <= total_weight(t) <= t.len() * (u32::MAX as int),
    decreases t.len(),
{
    if t.len() > 0 {
        lemma_total_weight_bound(t.drop_first());
    }
}

/// A table without repeated kinds has at most one entry per kind.
proof fn lemma_table_len(t: Seq<(Enemy, u32)>)
    requires
        unique_kinds(t),
    ensures
        t.len() <= 5,
{
    let ks = t.map_values(|e: (Enemy, u32)| e.0);
    assert(ks.no_duplicates()) by {
        assert forall|i: int, j: int|
            0 <= i < ks.len() && 0 <= j < ks.len() && i != j implies ks[i] != ks[j] by {
            assert(t[i].0 != t[j].0);
        }
    }
    let all = set![Enemy::Standard, Enemy::Bullet, Enemy::Cannon, Enemy::Rocket, Enemy::RocketShip];
    ks.unique_seq_to_set();
    assert(ks.to_set().subset_of(all)) by {
        assert forall|k: Enemy| ks.to_set().contains(k) implies all.contains(k) by {
            match k {
                Enemy::Standard => {},
                Enemy::Bullet => {},
                Enemy::Cannon => {},
                Enemy::Rocket => {},
                Enemy::RocketShip => {},
            }
        }
    }
    vstd::set_lib::lemma_len_subset(ks.to_set(), all);
    assert(all.len() <= 5);
}

/// Sum of the weights of a table without repeated kinds.
pub fn table_total(table: &Vec<(Enemy, u32)>) -> (r: u64)
    requires
        unique_kinds(table@),
    ensures
        r == total_weight(table@),
{
    proof {
        lemma_table_len(table@);
    }
    let mut i: usize = table.len();
    let mut acc: u64 = 0;
    while i > 0
        invariant
            i <= table@.len() <= 5,
            acc == total_weight(table@.subrange(i as int, table@.len() as int)),
        decreases i,
    {
        i = i - 1;
        let ghost rest = table@.subrange(i + 1, table@.len() as int);
        assert(table@.subrange(i as int, table@.len() as int).drop_first() =~= rest);
        proof {
            lemma_total_weight_bound(rest);
        }
        acc = acc + table[i].1 as u64;
    }
    assert(table@.subrange(0, table@.len() as int) =~= table@);
    acc
}

/// The kind that `roll` lands on when walking the table and adding up
/// weights; the standard kind where the sum never reaches it.
pub fn pick_enemy(table: &Vec<(Enemy, u32)>, roll: u64) -> (r: Enemy)
    ensures
        r == pick_from(table@, roll as int),
{
    let mut i: usize = 0;
    let mut rest: u64 = roll;
    assert(table@.subrange(0, table@.len() as int) =~= table@);
    while i < table.len()
        invariant
            i <= table@.len(),
            pick_from(table@.subrange(i as int, table@.len() as int), rest as int) == pick_from(
                table@,
                roll as int,
            ),
        decreases table@.len() - i,
    {
        let ghost tail = table@.subrange(i as int, table@.len() as int);
        assert(tail.drop_first() =~= table@.subrange(i + 1, table@.len() as int));
        let (kind, weight) = table[i];
        if weight as u64 >= rest {
            return kind;
        }
        rest = rest - weight as u64;
        i = i + 1;
    }
    Enemy::Standard
}

/// The weights of enemy kinds, kept in bevy's hash map.
#[verifier::external_body]
pub struct SpawnTable {
    map: bevy::utils::HashMap<Enemy, u32>,
}

/// What a spawn table holds: the weight of each kind that it names.
pub uninterp spec fn table_weights(t: SpawnTable) -> Map<Enemy, u32>;

/// The weight that a table gives a kind; zero where the kind is absent.
pub open spec fn weight_in(t: Map<Enemy, u32>, k: Enemy) -> int {
    if t.contains_key(k) {
        t[k] as int
    } else {
        0
    }
}

/// The table that names no kind.
pub open spec fn unweighted() -> Map<Enemy, u32> {
    Map::empty()
}

/// `entries` lists the table's kinds, each once, with their weights.
pub open spec fn lists(entries: Seq<(Enemy, u32)>, t: Map<Enemy, u32>) -> bool {
    &&& unique_kinds(entries)
    &&& forall|i: int|
        0 <= i < entries.len() ==> t.contains_key(#[trigger] entries[i].0) && t[entries[i].0]
            == entries[i].1
    &&& forall|k: Enemy|
        #[trigger] t.contains_key(k) ==> exists|i: int| 0 <= i < entries.len() && entries[i].0 == k
}

/// Relies on hashbrown's `HashMap::default`: a map without entries.
#[verifier::external_body]
fn empty_table() -> (r: SpawnTable)
    ensures
        table_weights(r) == unweighted(),
{
    SpawnTable { map: bevy::utils::HashMap::default() }
}

/// Relies on hashbrown's `HashMap::insert`: the kind is weighted `weight`,
/// in place of any weight it had, and other kinds keep theirs.
#[verifier::external_body]
fn insert_weight(table: &mut SpawnTable, kind: Enemy, weight: u32)
    ensures
        table_weights(*final(table)) == table_weights(*old(table)).insert(kind, weight),
{
    table.map.insert(kind, weight);
}

/// Relies on hashbrown's `HashMap::iter`: every entry once, in an order that
/// the map chooses.
#[verifier::external_body]
fn table_entries(table: &SpawnTable) -> (r: Vec<(Enemy, u32)>)
    ensures
        lists(r@, table_weights(*table)),
{
    table.map.iter().map(|(k, w)| (*k, *w)).collect()
}

/// What the spawn parameters amount to.
pub struct SpawnSettings {
    pub time_between_spawns: int,
    pub min_time_between_spawns: int,
    pub probability_spawn_another: int,
    pub max_probability_spawn_another: int,
    pub max_spawns: int,
    pub table: Map<Enemy, u32>,
}

impl SpawnSettings {
    /// The chance of another spawn is a proportion no higher than its
    /// ceiling; the pause between bursts is no shorter than its floor, and no
    /// longer than a timer can run.
    pub open spec fn wf(self) -> bool {
        &&& 0 <= self.probability_spawn_another <= self.max_probability_spawn_another <= PERCENT
        &&& 0 <= self.min_time_between_spawns <= self.time_between_spawns <= MAX_DURATION_US
        &&& 0 <= self.max_spawns <= u32::MAX
    }
}

/// The settings after a score increase to `score`: the chance of another spawn
/// rises one step up to its ceiling, the pause between bursts shrinks one step
/// down to its floor, the burst cap becomes `1 + score / 30`, and cannons and
/// rocket ships are weighted `score / 10` and `score / 15`.
pub open spec fn increased(v: SpawnSettings, score: int) -> SpawnSettings {
    let p = v.probability_spawn_another + PROBABILITY_STEP;
    let shorter = v.time_between_spawns - SPAWN_INTERVAL_STEP_US;
    SpawnSettings {
        probability_spawn_another: if p < v.max_probability_spawn_another {
            p
        } else {
            v.max_probability_spawn_another
        },
        time_between_spawns: if shorter > v.min_time_between_spawns {
            shorter
        } else {
            v.min_time_between_spawns
        },
        max_spawns: 1 + score / 30,
        table: v.table.insert(Enemy::Cannon, (score / 10) as u32).insert(
            Enemy::RocketShip,
            (score / 15) as u32,
        ),
        ..v
    }
}

/// The settings after the score has risen one by one from zero to `k`.
pub open spec fn played(v: SpawnSettings, k: nat) -> SpawnSettings
    decreases k,
{
    if k == 0 {
        v
    } else {
        increased(played(v, (k - 1) as nat), k as int)
    }
}

/// Parameters of the spawn director; with the weighted table they set the
/// difficulty. Times are in microseconds and probabilities in hundredths.
pub struct SpawnParameters {
    pub time_between_spawns_us: u64,
    pub min_time_between_spawns_us: u64,
    pub probability_spawn_another: u32,
    pub max_probability_spawn_another: u32,
    pub max_spawns: u32,
    pub spawn_table: SpawnTable,
}

impl View for SpawnParameters {
    type V = SpawnSettings;

    open spec fn view(&self) -> SpawnSettings {
        SpawnSettings {
            time_between_spawns: self.time_between_spawns_us as int,
            min_time_between_spawns: self.min_time_between_spawns_us as int,
            probability_spawn_another: self.probability_spawn_another as int,
            max_probability_spawn_another: self.max_probability_spawn_another as int,
            max_spawns: self.max_spawns as int,
            table: table_weights(self.spawn_table),
        }
    }
}

/// The settings that every run starts from: a burst every two seconds, at
/// best every three tenths; one enemy per burst, with no chance of another
/// yet and a ceiling of eighty in a hundred; standard enemies only.
pub open spec fn initial_settings() -> SpawnSettings {
    SpawnSettings {
        time_between_spawns: 2_000_000,
        min_time_between_spawns: 300_000,
        probability_spawn_another: 0,
        max_probability_spawn_another: 80,
        max_spawns: 1,
        table: map![Enemy::Standard => STANDARD_WEIGHT],
    }
}

impl Default for SpawnParameters {
    fn default() -> (r: SpawnParameters)
        ensures
            r@ == initial_settings(),
    {
        let mut spawn_table = empty_table();
        insert_weight(&mut spawn_table, Enemy::Standard, STANDARD_WEIGHT);
        let r = SpawnParameters {
            time_between_spawns_us: 2_000_000,
            min_time_between_spawns_us: 300_000,
            probability_spawn_another: 0,
            max_probability_spawn_another: 80,
            max_spawns: 1,
            spawn_table,
        };
        assert(r@.table =~= initial_settings().table);
        r
    }
}

impl SpawnParameters {
    pub open spec fn wf(&self) -> bool {
        self@.wf()
    }

    /// Weights `kind` in the table.
    pub fn set_weight(&mut self, kind: Enemy, weight: u32)
        requires
            old(self).wf(),
        ensures
            final(self).wf(),
            final(self)@ == (SpawnSettings {
                table: old(self)@.table.insert(kind, weight),
                ..old(self)@
            }),
    {
        insert_weight(&mut self.spawn_table, kind, weight);
    }

    /// The weight that the table gives `kind`; zero where it has no entry.
    pub fn weight_of(&self, kind: Enemy) -> (r: u32)
        ensures
            r == weight_in(self@.table, kind),
    {
        let entries = table_entries(&self.spawn_table);
        let mut i: usize = 0;
        while i < entries.len()
            invariant
                i <= entries@.len(),
                lists(entries@, self@.table),
                forall|j: int| 0 <= j < i ==> entries@[j].0 != kind,
            decreases entries@.len() - i,
        {
            if entries[i].0 == kind {
                return entries[i].1;
            }
            i = i + 1;
        }
        proof {
            if self@.table.contains_key(kind) {
                let j = choose|j: int| 0 <= j < entries@.len() && entries@[j].0 == kind;
                assert(entries@[j].0 != kind);
            }
        }
        0
    }

    /// Draws a kind with chance in proportion to its weight: a random roll in
    /// `1..=total` picks the first kind at which the running sum of weights,
    /// in the order that the table hands its entries out, reaches it. A table
    /// whose weights are all zero yields the standard kind.
    pub fn draw_enemy(&self) -> (r: Enemy)
        ensures
            (forall|k: Enemy| weight_in(self@.table, k) == 0) ==> r == Enemy::Standard,
            (exists|k: Enemy| weight_in(self@.table, k) > 0) ==> weight_in(self@.table, r) > 0,
    {
        let entries = table_entries(&self.spawn_table);
        let total = table_total(&entries);
        proof {
            lemma_total_weight_zero(entries@);
        }
        if total == 0 {
            proof {
                assert forall|k: Enemy| weight_in(self@.table, k) == 0 by {
                    if self@.table.contains_key(k) {
                        let j = choose|j: int| 0 <= j < entries@.len() && entries@[j].0 == k;
                        assert(entries@[j].1 == 0);
                    }
                }
            }
            return Enemy::Standard;
        }
        let roll = roll_weight(total);
        proof {
            lemma_drawn_kind_has_weight(entries@, roll as int);
            let i = choose|i: int|
                0 <= i < entries@.len() && entries@[i].0 == pick_from(entries@, roll as int)
                    && entries@[i].1 > 0;
            assert(self@.table.contains_key(entries@[i].0));
            assert(weight_in(self@.table, entries@[i].0) > 0);
        }
        pick_enemy(&entries, roll)
    }

    /// Hardens the parameters for a score that has just risen to `new_score`.
    pub fn increase_difficulty(&mut self, new_score: u32)
        requires
            old(self).wf(),
        ensures
            final(self).wf(),
            final(self)@ == increased(old(self)@, new_score as int),
    {
        let p = self.probability_spawn_another + PROBABILITY_STEP;
        self.probability_spawn_another = if p < self.max_probability_spawn_another {
            p
        } else {
            self.max_probability_spawn_another
        };
        let shorter = self.time_between_spawns_us.saturating_sub(SPAWN_INTERVAL_STEP_US);
        self.time_between_spawns_us = if shorter > self.min_time_between_spawns_us {
            shorter
        } else {
            self.min_time_between_spawns_us
        };
        self.max_spawns = 1 + new_score / 30;
        insert_weight(&mut self.spawn_table, Enemy::Cannon, new_score / 10);
        insert_weight(&mut self.spawn_table, Enemy::RocketShip, new_score / 15);
    }

    /// Puts the parameters back to those that every run starts from.
    pub fn reset_difficulty(&mut self)
        ensures
            final(self)@ == initial_settings(),
    {
        *self = SpawnParameters::default();
    }
}

/// Raising the score never eases spawning: between two points of a run, the
/// chance of another spawn does not fall and the pause between bursts does
/// not grow; once the score has risen at all, the burst cap and the weights
/// of cannons and rocket ships do not fall either. The weight of standard
/// enemies stays as it was.
pub proof fn lemma_difficulty_monotone(v: SpawnSettings, j: nat, k: nat)
    requires
        v.wf(),
        j <= k <= u32::MAX,
    ensures
        played(v, k).wf(),
        played(v, j).probability_spawn_another <= played(v, k).probability_spawn_another,
        played(v, k).time_between_spawns <= played(v, j).time_between_spawns,
        1 <= j ==> played(v, j).max_spawns <= played(v, k).max_spawns,
        1 <= j ==> weight_in(played(v, j).table, Enemy::Cannon) <= weight_in(
            played(v, k).table,
            Enemy::Cannon,
        ),
        1 <= j ==> weight_in(played(v, j).table, Enemy::RocketShip) <= weight_in(
            played(v, k).table,
            Enemy::RocketShip,
        ),
        weight_in(played(v, k).table, Enemy::Standard) == weight_in(v.table, Enemy::Standard),
    decreases k,
{
    lemma_played(v, k);
    if j < k {
        lemma_difficulty_monotone(v, j, (k - 1) as nat);
        lemma_played(v, (k - 1) as nat);
        if j >= 1 {
            assert(j / 30 <= k / 30) by (nonlinear_arith) requires j <= k;
        }
        assert(((k - 1) as int) / 10 <= k / 10) by (nonlinear_arith) requires k >= 1;
        assert(((k - 1) as int) / 15 <= k / 15) by (nonlinear_arith) requires k >= 1;
    }
}

/// One score increase, seen from the settings it produces.
proof fn lemma_played(v: SpawnSettings, k: nat)
    requires
        v.wf(),
        k <= u32::MAX,
    ensures
        played(v, k).wf(),
        weight_in(played(v, k).table, Enemy::Standard) == weight_in(v.table, Enemy::Standard),
        k >= 1 ==> weight_in(played(v, k).table, Enemy::Cannon) == k / 10,
        k >= 1 ==> weight_in(played(v, k).table, Enemy::RocketShip) == k / 15,
        k >= 1 ==> played(v, k).max_spawns == 1 + k / 30,
        k == 0 ==> played(v, k) == v,
        weight_in(played(v, k).table, Enemy::Cannon) >= 0,
        weight_in(played(v, k).table, Enemy::RocketShip) >= 0,
    decreases k,
{
    if k > 0 {
        lemma_played(v, (k - 1) as nat);
    }
}

/// After `k` score increases the pause between bursts has shrunk by `k`
/// steps, and the chance of another spawn grown by `k` steps, each stopping
/// at its bound.
proof fn lemma_played_pace(v: SpawnSettings, k: nat)
    requires
        v.wf(),
        k <= u32::MAX,
    ensures
        played(v, k).min_time_between_spawns == v.min_time_between_spawns,
        played(v, k).max_probability_spawn_another == v.max_probability_spawn_another,
        played(v, k).time_between_spawns == if v.time_between_spawns - k * SPAWN_INTERVAL_STEP_US
            > v.min_time_between_spawns {
            v.time_between_spawns - k * SPAWN_INTERVAL_STEP_US
        } else {
            v.min_time_between_spawns
        },
        played(v, k).probability_spawn_another == if v.probability_spawn_another + k
            * PROBABILITY_STEP < v.max_probability_spawn_another {
            v.probability_spawn_another + k * PROBABILITY_STEP
        } else {
            v.max_probability_spawn_another
        },
    decreases k,
{
    if k > 0 {
        lemma_played_pace(v, (k - 1) as nat);
        lemma_played(v, (k - 1) as nat);
    }
}

/// Difficulty saturates at its bounds: once the score has risen far enough,
/// the pause between bursts sits at its floor and the chance of another spawn
/// at its ceiling.
pub proof fn lemma_difficulty_saturates(v: SpawnSettings, k: nat)
    requires
        v.wf(),
        k <= u32::MAX,
    ensures
        k * SPAWN_INTERVAL_STEP_US >= v.time_between_spawns - v.min_time_between_spawns
            ==> played(v, k).time_between_spawns == v.min_time_between_spawns,
        k * PROBABILITY_STEP >= v.max_probability_spawn_another - v.probability_spawn_another
            ==> played(v, k).probability_spawn_another == v.max_probability_spawn_another,
{
    lemma_played_pace(v, k);
}

} // verus!
