//! The countdown clock: bevy's `Timer`, seen through a model of what it holds.

use bevy::time::{Timer, TimerMode};
use std::time::Duration;
use vstd::prelude::*;

verus! {

/// bevy's `Timer`, of which nothing is known but through `timer_model`.
#[verifier::external_type_specification]
#[verifier::external_body]
pub struct ExTimer(Timer);

/// What a timer holds, with its times in nanoseconds.
pub struct TimerModel {
    pub elapsed: nat,
    pub duration: nat,
    pub finished: bool,
    pub just_finished: bool,
    pub paused: bool,
    pub repeating: bool,
}

/// What a bevy `Timer` holds: the elapsed time and the duration as
/// `Timer::elapsed` and `Timer::duration` give them, and what `Timer::finished`,
/// `Timer::just_finished`, `Timer::paused` and `Timer::mode` say.
pub uninterp spec fn timer_model(timer: Timer) -> TimerModel;

impl TimerModel {
    /// A fresh timer that runs once for `duration` nanoseconds.
    pub open spec fn once(duration: nat) -> TimerModel {
        TimerModel {
            elapsed: 0,
            duration,
            finished: false,
            just_finished: false,
            paused: false,
            repeating: false,
        }
    }

    /// A timer that is running, stops for good when it finishes, and whose
    /// times are small enough for it to be advanced by any `u64` of
    /// nanoseconds, again and again.
    pub open spec fn runs_once(self) -> bool {
        &&& !self.paused
        &&& !self.repeating
        &&& self.elapsed <= u64::MAX
        &&& self.duration <= u64::MAX
    }

    /// The timer after `delta` more nanoseconds, for a timer that `runs_once`.
    pub open spec fn tick(self, delta: nat) -> TimerModel {
        if self.finished {
            TimerModel { just_finished: false, ..self }
        } else if self.elapsed + delta >= self.duration {
            TimerModel { elapsed: self.duration, finished: true, just_finished: true, ..self }
        } else {
            TimerModel { elapsed: self.elapsed + delta, just_finished: false, ..self }
        }
    }
}

/// `Timer::new` with `TimerMode::Once`: the timer starts at zero, running and
/// unfinished, with the duration it was given.
#[verifier::external_body]
pub(crate) fn timer_once(nanos: u64) -> (timer: Timer)
    ensures
        timer_model(timer) == TimerModel::once(nanos as nat),
{
    Timer::new(Duration::from_nanos(nanos), TimerMode::Once)
}

/// `Timer::tick` on a running once-timer: a finished timer only forgets that it
/// has just finished; otherwise the elapsed time grows by `nanos`, stops at the
/// duration, and reaching the duration finishes the timer on this tick.
#[verifier::external_body]
pub(crate) fn timer_tick(timer: &mut Timer, nanos: u64)
    requires
        timer_model(*old(timer)).runs_once(),
    ensures
        timer_model(*final(timer)) == timer_model(*old(timer)).tick(nanos as nat),
{
    timer.tick(Duration::from_nanos(nanos));
}

/// `Timer::just_finished`: whether the last tick was the one that reached the
/// duration.
#[verifier::external_body]
pub(crate) fn timer_just_finished(timer: &Timer) -> (fired: bool)
    ensures
        fired == timer_model(*timer).just_finished,
{
    timer.just_finished()
}

} // verus!
