//! A repeating timer over whole microseconds.

use vstd::prelude::*;
use vstd::arithmetic::div_mod::lemma_div_multiples_vanish_fancy;
use vstd::arithmetic::div_mod::lemma_fundamental_div_mod;
use vstd::arithmetic::div_mod::lemma_mod_multiples_vanish;
use vstd::arithmetic::div_mod::lemma_small_mod;
use vstd::arithmetic::mul::lemma_mul_is_distributive_add;

verus! {

/// A timer that completes a period every `duration` microseconds and starts
/// over. It keeps the time elapsed in the current period and the number of
/// periods completed by the latest tick.
#[derive(Clone, Copy, Debug, PartialEq, Eq)]
pub struct Timer {
    pub duration: u64,
    pub elapsed: u64,
    pub times_finished: u64,
}

/// The whole periods of length `duration` in the time `elapsed + delta`.
pub open spec fn spec_periods(duration: int, elapsed: int, delta: int) -> int {
    (elapsed + delta) / duration
}

/// What of the time `elapsed + delta` is left over after whole periods of
/// length `duration`.
pub open spec fn spec_left_over(duration: int, elapsed: int, delta: int) -> int {
    (elapsed + delta) % duration
}

/// Whole periods and left-over time do not depend on how time is cut into
/// ticks: the periods completed by two ticks add up to those of one tick as
/// long as both, and the same time is left over.
pub proof fn lemma_ticks_add_up(duration: int, elapsed: int, first: int, second: int)
    requires
        0 < duration,
        0 <= elapsed < duration,
        0 <= first,
        0 <= second,
    ensures
        spec_periods(duration, elapsed, first) + spec_periods(
            duration,
            spec_left_over(duration, elapsed, first),
            second,
        ) == spec_periods(duration, elapsed, first + second),
        spec_left_over(duration, spec_left_over(duration, elapsed, first), second)
            == spec_left_over(duration, elapsed, first + second),
{
    let q1 = (elapsed + first) / duration;
    let r1 = (elapsed + first) % duration;
    let q2 = (r1 + second) / duration;
    let r2 = (r1 + second) % duration;
    lemma_fundamental_div_mod(elapsed + first, duration);
    lemma_fundamental_div_mod(r1 + second, duration);
    lemma_mul_is_distributive_add(duration, q1, q2);
    assert(elapsed + first + second == duration * (q1 + q2) + r2);
    lemma_div_multiples_vanish_fancy(q1 + q2, r2, duration);
    lemma_mod_multiples_vanish(q1 + q2, r2, duration);
    lemma_small_mod(r2 as nat, duration as nat);
}

impl Timer {
    /// The period is positive and the elapsed time is less than it.
    pub open spec fn wf(self) -> bool {
        0 < self.duration && self.elapsed < self.duration
    }

    /// Decides [`Timer::wf`].
    pub fn is_wf(&self) -> (b: bool)
        ensures
            b == self.wf(),
    {
        0 < self.duration && self.elapsed < self.duration
    }

    /// A timer of period `duration` that has not run.
    pub fn new(duration: u64) -> (t: Timer)
        requires
            duration > 0,
        ensures
            t == (Timer { duration, elapsed: 0, times_finished: 0 }),
            t.wf(),
    {
        Timer { duration, elapsed: 0, times_finished: 0 }
    }

    /// Whether the latest tick completed a period.
    pub open spec fn spec_finished(self) -> bool {
        self.times_finished > 0
    }

    /// Decides [`Timer::spec_finished`].
    pub fn finished(&self) -> (b: bool)
        ensures
            b == self.spec_finished(),
    {
        self.times_finished > 0
    }

    /// The timer after `delta` more microseconds.
    pub open spec fn spec_tick(self, delta: u64) -> Timer {
        Timer {
            duration: self.duration,
            elapsed: spec_left_over(self.duration as int, self.elapsed as int, delta as int) as u64,
            times_finished: spec_periods(self.duration as int, self.elapsed as int, delta as int) as u64,
        }
    }

    /// Advances the timer by `delta` microseconds.
    pub fn tick(&mut self, delta: u64)
        requires
            old(self).wf(),
        ensures
            *final(self) == old(self).spec_tick(delta),
            final(self).wf(),
            final(self).times_finished == spec_periods(
                old(self).duration as int,
                old(self).elapsed as int,
                delta as int,
            ),
    {
        let d: u64 = self.duration;
        let whole: u64 = delta / d;
        let part: u64 = delta % d;
        let room: u64 = d - self.elapsed;
        proof {
            lemma_fundamental_div_mod(delta as int, d as int);
            if part >= room {
                assert(self.elapsed + delta == d * (whole + 1) + (part - room)) by (nonlinear_arith)
                    requires
                        delta == d * whole + part,
                        room == d - self.elapsed,
                ;
                lemma_div_multiples_vanish_fancy(whole + 1, part - room, d as int);
                lemma_mod_multiples_vanish(whole + 1, part - room, d as int);
                lemma_small_mod((part - room) as nat, d as nat);
                assert(d >= 2);
                assert(whole < u64::MAX) by (nonlinear_arith)
                    requires
                        delta == d * whole + part,
                        d >= 2,
                        part >= 0,
                        delta <= u64::MAX,
                ;
            } else {
                lemma_div_multiples_vanish_fancy(whole as int, self.elapsed + part, d as int);
                lemma_mod_multiples_vanish(whole as int, self.elapsed + part, d as int);
                lemma_small_mod((self.elapsed + part) as nat, d as nat);
            }
        }
        if part >= room {
            self.elapsed = part - room;
            self.times_finished = whole + 1;
        } else {
            self.elapsed = self.elapsed + part;
            self.times_finished = whole;
        }
    }
}

} // verus!
