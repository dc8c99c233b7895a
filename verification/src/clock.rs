//! Countdown timers.
//!
//! The timers themselves are `rusty_time::Timer` values, driven with
//! `std::time::Duration` deltas. Neither type is visible to the verifier, so
//! this module names what their accessors report and states, without proof,
//! how each operation used by the game changes those reports. Everything else
//! in the crate reasons about a timer through its [`Countdown`].

use rusty_time::Timer;
use std::time::Duration;
use vstd::prelude::*;

verus! {

/// The timer type of the `rusty_time` crate, carried as an opaque value.
#[verifier::external_type_specification]
#[verifier::external_body]
pub struct ExTimer(rusty_time::Timer);

/// Nanoseconds in one millisecond.
pub const NANOS_PER_MILLI: u64 = 1_000_000;

/// The total number of nanoseconds in a duration, as `Duration::as_nanos`
/// reports it.
pub uninterp spec fn duration_nanos(d: Duration) -> nat;

/// The time left on a timer in nanoseconds, as `Timer::remaining` reports it.
pub uninterp spec fn timer_remaining(t: Timer) -> nat;

/// The full period of a timer in nanoseconds, as `Timer::duration` reports it.
pub uninterp spec fn timer_period(t: Timer) -> nat;

/// Whether a timer has run out, as `Timer::finished` reports it.
pub uninterp spec fn timer_finished(t: Timer) -> bool;

/// `Duration::from_millis`, trusted: the result lasts `millis` milliseconds.
pub assume_specification[ Duration::from_millis ](millis: u64) -> (d: Duration)
    ensures
        duration_nanos(d) == millis * NANOS_PER_MILLI,
;

/// `Duration::as_nanos`, trusted: the whole duration in nanoseconds.
pub assume_specification[ Duration::as_nanos ](d: &Duration) -> (nanos: u128)
    ensures
        nanos == duration_nanos(*d),
;

/// `Duration::saturating_sub`, trusted: the difference of the two
/// durations, or nothing where `rhs` is the longer one.
pub assume_specification[ Duration::saturating_sub ](d: Duration, rhs: Duration) -> (rest: Duration)
    ensures
        duration_nanos(rest) == if duration_nanos(d) >= duration_nanos(rhs) {
            duration_nanos(d) - duration_nanos(rhs)
        } else {
            0
        },
;

/// `Timer::new`, trusted: a running timer whose period is `duration`, with
/// all of it left.
pub assume_specification[ Timer::new ](duration: Duration) -> (t: Timer)
    ensures
        timer_period(t) == duration_nanos(duration),
        timer_remaining(t) == duration_nanos(duration),
        !timer_finished(t),
;

/// `Timer::finished`, trusted: reads the flag and changes nothing.
pub assume_specification[ Timer::finished ](t: &Timer) -> (done: bool)
    ensures
        done == timer_finished(*t),
;

/// `Timer::reset`, trusted: the period is kept and all of it is left again.
/// The timer runs afterwards, except in one corner: a timer of period zero
/// that still had time left counts as run out at once.
pub assume_specification[ Timer::reset ](t: &mut Timer)
    ensures
        timer_period(*final(t)) == timer_period(*old(t)),
        timer_remaining(*final(t)) == timer_period(*old(t)),
        timer_finished(*final(t)) == (timer_period(*old(t)) == 0 && timer_remaining(*old(t)) != 0),
;

/// `Timer::tick`, trusted: a timer that has run out stays as it is; a running
/// timer loses `delta`, stopping at zero, and has run out exactly if nothing
/// is left.
#[verifier::external_body]
pub(crate) fn tick(t: &mut Timer, delta: Duration)
    ensures
        timer_period(*final(t)) == timer_period(*old(t)),
        timer_finished(*old(t)) ==> timer_finished(*final(t)) && timer_remaining(*final(t))
            == timer_remaining(*old(t)),
        !timer_finished(*old(t)) ==> timer_finished(*final(t)) == (timer_remaining(*old(t))
            <= duration_nanos(delta)),
        !timer_finished(*old(t)) ==> timer_remaining(*final(t)) == if timer_remaining(*old(t))
            <= duration_nanos(delta) {
            0
        } else {
            timer_remaining(*old(t)) - duration_nanos(delta)
        },
{
    t.tick(delta);
}

/// What a countdown timer holds: its period, the time left, and whether it
/// has run out. Times are in nanoseconds.
pub struct Countdown {
    pub period: nat,
    pub left: nat,
    pub done: bool,
}

/// The countdown that a timer holds.
pub open spec fn countdown(t: Timer) -> Countdown {
    Countdown { period: timer_period(t), left: timer_remaining(t), done: timer_finished(t) }
}

/// The number of nanoseconds in `millis` milliseconds.
pub open spec fn millis_to_nanos(millis: u64) -> nat {
    (millis * NANOS_PER_MILLI) as nat
}

impl Countdown {
    /// A countdown that has just been started with the given period.
    pub open spec fn armed(period: nat) -> Countdown {
        Countdown { period, left: period, done: false }
    }

    /// The countdown after `delta` has passed.
    pub open spec fn tick(self, delta: nat) -> Countdown {
        if self.done {
            self
        } else if self.left <= delta {
            Countdown { left: 0, done: true, ..self }
        } else {
            Countdown { left: (self.left - delta) as nat, ..self }
        }
    }

    /// The countdown after it has been started again.
    pub open spec fn rearm(self) -> Countdown {
        Countdown { left: self.period, done: self.period == 0 && self.left != 0, ..self }
    }

    /// A countdown of positive length that has not overrun, and that holds
    /// no time once it is done.
    pub open spec fn wf(self) -> bool {
        &&& 0 < self.period
        &&& self.left <= self.period
        &&& self.done ==> self.left == 0
    }

    /// Whether the countdown has run out once `delta` has passed.
    pub open spec fn rings(self, delta: nat) -> bool {
        self.done || self.left <= delta
    }
}

/// The nanoseconds that a run of updates adds up to.
pub open spec fn total(deltas: Seq<nat>) -> nat
    decreases deltas.len(),
{
    if deltas.len() == 0 {
        0
    } else {
        total(deltas.drop_last()) + deltas.last()
    }
}

/// A timer started with a period of `millis` milliseconds.
pub fn start(millis: u64) -> (t: Timer)
    ensures
        countdown(t) == Countdown::armed(millis_to_nanos(millis)),
{
    Timer::new(Duration::from_millis(millis))
}

/// Lets `delta` pass on a timer and reports whether it has run out.
pub fn advance(t: &mut Timer, delta: Duration) -> (rang: bool)
    ensures
        countdown(*final(t)) == countdown(*old(t)).tick(duration_nanos(delta)),
        rang == countdown(*old(t)).rings(duration_nanos(delta)),
{
    tick(t, delta);
    t.finished()
}

/// Starts a timer again with its own period.
pub fn restart(t: &mut Timer)
    ensures
        countdown(*final(t)) == countdown(*old(t)).rearm(),
{
    t.reset();
}

/// Ticking and re-arming keep a countdown well formed, and a well-formed
/// countdown runs after it is re-armed.
pub proof fn lemma_countdown_wf(c: Countdown, delta: nat)
    requires
        c.wf(),
    ensures
        c.tick(delta).wf(),
        c.rearm() == Countdown::armed(c.period),
        c.tick(delta).done == c.rings(delta),
{
}

} // verus!
