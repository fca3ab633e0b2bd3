//! Countdowns, advanced by bevy's timer.
use vstd::prelude::*;
use std::time::Duration;

verus! {

/// The longest duration of a timer, in microseconds: its length in
/// nanoseconds still fits in 64 bits.
pub const MAX_DURATION_US: u64 = 18_446_744_073_709_551;

/// Whether a timer starts over once it has run out.
#[derive(Clone, Copy, Debug, PartialEq, Eq, Structural)]
pub enum TimerMode {
    Once,
    Repeating,
}

/// A countdown in microseconds: its duration, and the time elapsed toward it.
#[derive(Clone, Copy, Debug, PartialEq, Eq, Structural)]
pub struct Timer {
    pub duration_us: u64,
    pub elapsed_us: u64,
    pub mode: TimerMode,
}

/// The timer after `delta` more microseconds, and whether it ran out on the
/// way: a repeating timer keeps what lies beyond its duration, a one-shot
/// timer stops at its duration.
pub open spec fn ticked(t: Timer, delta: int) -> (Timer, bool) {
    let total = t.elapsed_us + delta;
    if total >= t.duration_us {
        let rest = match t.mode {
            TimerMode::Repeating => if t.duration_us == 0 {
                0
            } else {
                total % (t.duration_us as int)
            },
            TimerMode::Once => t.duration_us as int,
        };
        (Timer { elapsed_us: rest as u64, ..t }, true)
    } else {
        (Timer { elapsed_us: total as u64, ..t }, false)
    }
}

/// Relies on bevy's `Timer::tick` and `Timer::finished`: the elapsed time
/// grows by `delta`; once it reaches the duration the timer is finished, and
/// then a repeating timer keeps the remainder while a one-shot timer stays at
/// its duration. The remainder passes through a count of nanoseconds in 64
/// bits, hence the bound on the duration.
#[verifier::external_body]
fn bevy_tick(t: Timer, delta_us: u64) -> (r: (Timer, bool))
    requires
        t.duration_us <= MAX_DURATION_US,
    ensures
        r == ticked(t, delta_us as int),
{
    let mode = match t.mode {
        TimerMode::Once => bevy::time::TimerMode::Once,
        TimerMode::Repeating => bevy::time::TimerMode::Repeating,
    };
    let mut timer = bevy::time::Timer::new(Duration::from_micros(t.duration_us), mode);
    timer.set_elapsed(Duration::from_micros(t.elapsed_us));
    let finished = timer.tick(Duration::from_micros(delta_us)).finished();
    (Timer { elapsed_us: timer.elapsed().as_micros() as u64, ..t }, finished)
}

impl Timer {
    /// The duration is within the longest a timer may have.
    pub open spec fn wf(self) -> bool {
        self.duration_us <= MAX_DURATION_US
    }

    pub fn new(duration_us: u64, mode: TimerMode) -> (r: Timer)
        ensures
            r.duration_us == duration_us,
            r.elapsed_us == 0,
            r.mode == mode,
    {
        Timer { duration_us, elapsed_us: 0, mode }
    }

    /// Advances the timer by `delta_us` and tells whether it ran out.
    pub fn tick(&mut self, delta_us: u64) -> (finished: bool)
        requires
            old(self).wf(),
        ensures
            (*final(self), finished) == ticked(*old(self), delta_us as int),
    {
        let (t, finished) = bevy_tick(*self, delta_us);
        *self = t;
        finished
    }

    /// Starts the countdown over.
    pub fn reset(&mut self)
        ensures
            *final(self) == (Timer { elapsed_us: 0, ..*old(self) }),
    {
        self.elapsed_us = 0;
    }

    pub fn set_duration(&mut self, duration_us: u64)
        ensures
            *final(self) == (Timer { duration_us, ..*old(self) }),
    {
        self.duration_us = duration_us;
    }
}

} // verus!
