//! The countdown that paces one phase of an attack.

use bevy::time::{Timer, TimerMode};
use std::time::Duration;
use vstd::prelude::*;

verus! {

/// What a countdown is: how long it runs and how much of that has passed,
/// both in nanoseconds.
pub struct TimerState {
    pub duration: nat,
    pub elapsed: nat,
}

impl TimerState {
    /// A countdown never runs past its end.
    pub open spec fn wf(self) -> bool {
        self.elapsed <= self.duration
    }

    /// The countdown that has just been started.
    pub open spec fn fresh(duration: nat) -> TimerState {
        TimerState { duration, elapsed: 0 }
    }

    pub open spec fn finished(self) -> bool {
        self.elapsed == self.duration
    }

    pub open spec fn remaining(self) -> int {
        self.duration - self.elapsed
    }

    /// Time passes: the countdown moves on by `delta` and stops at its end.
    pub open spec fn tick(self, delta: nat) -> TimerState {
        TimerState {
            duration: self.duration,
            elapsed: if self.elapsed + delta < self.duration {
                self.elapsed + delta
            } else {
                self.duration
            },
        }
    }
}

/// Ticking keeps a countdown within its bounds and never turns it back.
pub proof fn lemma_tick_bounds(t: TimerState, delta: nat)
    requires
        t.wf(),
    ensures
        t.tick(delta).wf(),
        t.elapsed <= t.tick(delta).elapsed <= t.elapsed + delta,
        t.tick(delta).finished() <==> t.elapsed + delta >= t.duration,
{
}

/// Two ticks in a row count as one tick of their sum.
pub proof fn lemma_tick_adds(t: TimerState, first: nat, second: nat)
    requires
        t.wf(),
    ensures
        t.tick(first).tick(second) == t.tick(first + second),
{
}

/// Runs bevy's `Timer` for one tick: a one-shot timer of `duration`
/// nanoseconds with `elapsed` of them behind it is ticked by `delta`. The
/// contract claims what `Timer::tick` does in `TimerMode::Once`: the elapsed
/// time grows by `delta` and is cut off at the duration.
#[verifier::external_body]
fn tick_once(duration: u64, elapsed: u64, delta: u64) -> (after: u64)
    ensures
        after as nat == (TimerState { duration: duration as nat, elapsed: elapsed as nat }).tick(
            delta as nat,
        ).elapsed,
{
    let mut timer = Timer::new(Duration::from_nanos(duration), TimerMode::Once);
    timer.set_elapsed(Duration::from_nanos(elapsed));
    timer.tick(Duration::from_nanos(delta));
    timer.elapsed().as_nanos() as u64
}

/// A one-shot countdown in nanoseconds.
#[derive(Clone, Copy, Debug)]
pub struct CombatTimer {
    duration: u64,
    elapsed: u64,
}

impl View for CombatTimer {
    type V = TimerState;

    closed spec fn view(&self) -> TimerState {
        TimerState { duration: self.duration as nat, elapsed: self.elapsed as nat }
    }
}

impl CombatTimer {
    /// Every countdown that the program holds is within its bounds.
    #[verifier::type_invariant]
    pub open spec fn inv(self) -> bool {
        self@.wf()
    }

    /// Starts a countdown of `duration` nanoseconds.
    pub fn new(duration: u64) -> (timer: CombatTimer)
        ensures
            timer@ == TimerState::fresh(duration as nat),
    {
        CombatTimer { duration, elapsed: 0 }
    }

    pub fn duration(&self) -> (d: u64)
        ensures
            d == self@.duration,
    {
        self.duration
    }

    pub fn elapsed(&self) -> (e: u64)
        ensures
            e == self@.elapsed,
    {
        self.elapsed
    }

    pub fn remaining(&self) -> (r: u64)
        ensures
            r == self@.remaining(),
    {
        proof {
            use_type_invariant(self);
        }
        self.duration - self.elapsed
    }

    pub fn finished(&self) -> (done: bool)
        ensures
            done == self@.finished(),
    {
        self.elapsed == self.duration
    }

    /// Moves the countdown on by `delta` nanoseconds.
    pub fn tick(&mut self, delta: u64)
        ensures
            final(self)@ == old(self)@.tick(delta as nat),
    {
        proof {
            use_type_invariant(&*self);
        }
        let after = tick_once(self.duration, self.elapsed, delta);
        *self = CombatTimer { duration: self.duration, elapsed: after };
    }

    /// Starts the countdown over.
    pub fn reset(&mut self)
        ensures
            final(self)@ == TimerState::fresh(old(self)@.duration),
    {
        *self = CombatTimer { duration: self.duration, elapsed: 0 };
    }
}

impl Default for CombatTimer {
    /// The countdown of no time at all.
    fn default() -> (timer: CombatTimer)
        ensures
            timer@ == TimerState::fresh(0),
    {
        CombatTimer { duration: 0, elapsed: 0 }
    }
}

} // verus!
