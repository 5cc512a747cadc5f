//! Countdown timers measured in nanoseconds.
//!
//! A `GameTimer` holds as plain values what the engine's timer keeps:
//! its duration, the time elapsed, its mode, whether it is finished and how
//! many times it finished during the last tick. Advancing a timer is done by
//! the engine's own timer code, behind one trusted wrapper.

use vstd::prelude::*;

verus! {

/// Whether a timer stops when it finishes or starts over.
#[derive(Clone, Copy, Debug, PartialEq, Eq, Structural)]
pub enum TimerMode {
    /// Finishes once and stays finished until reset.
    Once,
    /// Finishes each time its duration is reached and wraps around.
    Repeating,
}

/// A timer, with all durations in nanoseconds.
#[derive(Clone, Copy, Debug, PartialEq, Eq, Structural)]
pub struct GameTimer {
    /// How long the timer runs before it finishes.
    pub duration: u64,
    /// Time accumulated since the last reset (or wrap, when repeating).
    pub elapsed: u64,
    /// Once or repeating.
    pub mode: TimerMode,
    /// Whether the timer is in its finished state.
    pub finished: bool,
    /// How many times the timer finished during the last tick.
    pub times_finished_this_tick: u32,
}

/// Advances the engine's timer (`bevy::time::Timer::tick`) by `delta` from a
/// running state rebuilt from plain values, and reads the result back as
/// `(elapsed, finished, times_finished_this_tick)`.
///
/// The contract states what the engine's source does for a timer that is not
/// paused and that is not a finished one-shot timer: the elapsed time grows by
/// `delta`; the timer is finished when it reaches its duration; a one-shot timer
/// then stops at its duration and counts one finish; a repeating timer keeps the
/// remainder and counts the whole number of durations elapsed (the count is cast
/// to `u32`, and a zero duration counts `u32::MAX` and resets to zero).
#[verifier::external_body]
fn engine_timer_tick(duration: u64, elapsed: u64, mode: TimerMode, delta: u64) -> (r: (
    u64,
    bool,
    u32,
))
    ensures
        r.1 == (elapsed + delta >= duration),
        !r.1 ==> r.0 == elapsed + delta && r.2 == 0,
        r.1 && mode == TimerMode::Once ==> r.0 == duration && r.2 == 1,
        r.1 && mode == TimerMode::Repeating && duration > 0 ==> r.0 == (elapsed + delta)
            % (duration as int) && r.2 == ((elapsed + delta) / (duration as int)) as u32,
        r.1 && mode == TimerMode::Repeating && duration == 0 ==> r.0 == 0 && r.2 == u32::MAX,
{
    let engine_mode = match mode {
        TimerMode::Once => bevy::time::TimerMode::Once,
        TimerMode::Repeating => bevy::time::TimerMode::Repeating,
    };
    let mut t = bevy::time::Timer::new(std::time::Duration::from_nanos(duration), engine_mode);
    t.set_elapsed(std::time::Duration::from_nanos(elapsed));
    t.tick(std::time::Duration::from_nanos(delta));
    (t.elapsed().as_nanos() as u64, t.is_finished(), t.times_finished_this_tick())
}

impl GameTimer {
    /// The state of this timer after a tick of `delta` nanoseconds.
    pub open spec fn ticked(self, delta: nat) -> GameTimer {
        if self.mode == TimerMode::Once && self.finished {
            GameTimer { times_finished_this_tick: 0, ..self }
        } else {
            let total = self.elapsed + delta;
            if total < self.duration {
                GameTimer {
                    elapsed: total as u64,
                    finished: false,
                    times_finished_this_tick: 0,
                    ..self
                }
            } else if self.mode == TimerMode::Once {
                GameTimer {
                    elapsed: self.duration,
                    finished: true,
                    times_finished_this_tick: 1,
                    ..self
                }
            } else if self.duration == 0 {
                GameTimer {
                    elapsed: 0,
                    finished: true,
                    times_finished_this_tick: u32::MAX,
                    ..self
                }
            } else {
                GameTimer {
                    elapsed: (total % (self.duration as int)) as u64,
                    finished: true,
                    times_finished_this_tick: (total / (self.duration as int)) as u32,
                    ..self
                }
            }
        }
    }

    /// A fresh timer: nothing elapsed, not finished.
    pub open spec fn fresh(duration: u64, mode: TimerMode) -> GameTimer {
        GameTimer {
            duration,
            elapsed: 0,
            mode,
            finished: false,
            times_finished_this_tick: 0,
        }
    }

    /// Creates a timer of the given duration (nanoseconds) and mode.
    pub fn new(duration: u64, mode: TimerMode) -> (t: GameTimer)
        ensures
            t == GameTimer::fresh(duration, mode),
    {
        GameTimer { duration, elapsed: 0, mode, finished: false, times_finished_this_tick: 0 }
    }

    /// Advances the timer by `delta` nanoseconds. A finished one-shot timer
    /// stays as it is, except that it did not finish during this tick (the
    /// engine's timer returns early in that state too); any other state is
    /// advanced by the engine's own timer, which ignores the finished flag
    /// there.
    pub fn tick(&mut self, delta: u64)
        ensures
            *final(self) == old(self).ticked(delta as nat),
    {
        if self.mode == TimerMode::Once && self.finished {
            self.times_finished_this_tick = 0;
        } else {
            let (elapsed, finished, times) = engine_timer_tick(
                self.duration,
                self.elapsed,
                self.mode,
                delta,
            );
            self.elapsed = elapsed;
            self.finished = finished;
            self.times_finished_this_tick = times;
        }
    }

    /// Whether the timer is in its finished state.
    pub fn is_finished(&self) -> (b: bool)
        ensures
            b == self.finished,
    {
        self.finished
    }

    /// Whether the timer finished at least once during the last tick.
    pub fn just_finished(&self) -> (b: bool)
        ensures
            b == (self.times_finished_this_tick > 0),
    {
        self.times_finished_this_tick > 0
    }

    /// Sets the elapsed time back to zero and leaves the finished state.
    pub fn reset(&mut self)
        ensures
            *final(self) == GameTimer::fresh(old(self).duration, old(self).mode),
    {
        self.elapsed = 0;
        self.finished = false;
        self.times_finished_this_tick = 0;
    }
}

/// A one-shot timer that has finished stays finished, with its elapsed time
/// unchanged, however long it is ticked, until it is reset.
pub proof fn lemma_once_timer_stays_finished(t: GameTimer, delta: nat)
    requires
        t.mode == TimerMode::Once,
        t.finished,
    ensures
        t.ticked(delta as nat).finished,
        t.ticked(delta as nat).elapsed == t.elapsed,
        t.ticked(delta as nat).times_finished_this_tick == 0,
{
}

/// A timer that is not a finished one-shot timer is finished after a tick
/// exactly when the time accumulated reaches its duration.
pub proof fn lemma_finishes_when_duration_reached(t: GameTimer, delta: nat)
    requires
        !(t.mode == TimerMode::Once && t.finished),
    ensures
        t.ticked(delta as nat).finished <==> t.elapsed + delta >= t.duration,
{
}

/// After a tick, a repeating timer with a non-zero duration has less than its
/// duration elapsed, and a one-shot timer never more than its duration when it
/// started at most there.
pub proof fn lemma_elapsed_bounded(t: GameTimer, delta: nat)
    requires
        t.duration > 0,
        t.elapsed <= t.duration,
    ensures
        t.mode == TimerMode::Repeating ==> t.ticked(delta as nat).elapsed < t.duration,
        t.ticked(delta as nat).elapsed <= t.duration,
{
}

/// Splitting a tick in two changes nothing on a one-shot timer but the count
/// of finishes during the last tick.
pub proof fn lemma_once_split_tick(t: GameTimer, a: nat, b: nat)
    requires
        t.mode == TimerMode::Once,
    ensures
        t.ticked(a).ticked(b).elapsed == t.ticked((a + b) as nat).elapsed,
        t.ticked(a).ticked(b).finished == t.ticked((a + b) as nat).finished,
{
}

/// Splitting a tick in two leaves a repeating timer with the same elapsed time
/// as one tick of the sum.
pub proof fn lemma_repeating_split_tick(t: GameTimer, a: nat, b: nat)
    requires
        t.mode == TimerMode::Repeating,
        t.duration > 0,
        t.elapsed < t.duration,
    ensures
        t.ticked(a).ticked(b).elapsed == t.ticked((a + b) as nat).elapsed,
{
    let d = t.duration as int;
    let e = t.elapsed as int;
    let e1 = t.ticked(a).elapsed as int;
    assert(e1 == (e + a) % d) by {
        if e + a < d {
            vstd::arithmetic::div_mod::lemma_small_mod((e + a) as nat, d as nat);
        }
    }
    assert((e1 + b) % d == (e + a + b) % d) by {
        vstd::arithmetic::div_mod::lemma_add_mod_noop(e + a, b as int, d);
        vstd::arithmetic::div_mod::lemma_mod_twice(e + a, d);
        vstd::arithmetic::div_mod::lemma_add_mod_noop(e1, b as int, d);
        vstd::arithmetic::div_mod::lemma_small_mod(e1 as nat, d as nat);
    }
    if e1 + b < d {
        vstd::arithmetic::div_mod::lemma_small_mod((e1 + b) as nat, d as nat);
    }
    if e + a + b < d {
        vstd::arithmetic::div_mod::lemma_small_mod((e + a + b) as nat, d as nat);
    }
}

} // verus!
