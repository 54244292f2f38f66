//! Angles held exactly, and the directions the host evaluates them to.
//!
//! The simulation never evaluates a trigonometric function. An [`Angle`] is the
//! direction of a vector of whole numbers turned by a whole number of
//! micro-radians, so it can be stored and advanced without rounding. Whoever
//! drives the simulation evaluates cosine and sine of an angle and hands them
//! back as a [`Direction`].

use vstd::prelude::*;
use vstd::arithmetic::div_mod::lemma_div_is_ordered_by_denominator;
use vstd::arithmetic::div_mod::lemma_div_pos_is_pos;
use vstd::arithmetic::div_mod::lemma_fundamental_div_mod;
use vstd::arithmetic::div_mod::lemma_mod_multiples_vanish;
use vstd::arithmetic::div_mod::lemma_small_mod;
use crate::units::COORD_MAX;

verus! {

/// A full turn, in micro-radians.
pub const TAU_MICRO: i64 = 6_283_185;

/// A quarter turn, in micro-radians.
pub const HALF_PI_MICRO: i64 = 1_570_796;

/// Micro-radians in one radian; also the length of a unit [`Direction`].
pub const MICRO: i64 = 1_000_000;

/// The angle `atan2(rise, run)` turned counter-clockwise by `turn`
/// micro-radians.
#[derive(Clone, Copy, Debug, PartialEq, Eq)]
pub struct Angle {
    pub rise: i64,
    pub run: i64,
    pub turn: i64,
}

/// Cosine and sine of an angle, in millionths.
#[derive(Clone, Copy, Debug, PartialEq, Eq)]
pub struct Direction {
    pub cos: i64,
    pub sin: i64,
}

impl Direction {
    /// Neither component exceeds one in magnitude.
    pub open spec fn wf(self) -> bool {
        &&& -MICRO <= self.cos <= MICRO
        &&& -MICRO <= self.sin <= MICRO
    }

    /// Decides [`Direction::wf`].
    pub fn is_wf(&self) -> (b: bool)
        ensures
            b == self.wf(),
    {
        -MICRO <= self.cos && self.cos <= MICRO && -MICRO <= self.sin && self.sin <= MICRO
    }
}

/// The angle, in micro-radians, by which a path of radius `min_radius` turns
/// while a point on it covers `max_step`: `max_step / (min_radius * pi / 2)`,
/// rounded down.
pub open spec fn spec_sweep(max_step: int, min_radius: int) -> int {
    (1_000_000_000_000 * max_step) / (min_radius * HALF_PI_MICRO)
}

/// Computes [`spec_sweep`].
pub fn sweep(max_step: i64, min_radius: i64) -> (s: i64)
    requires
        0 <= max_step <= u32::MAX,
        0 < min_radius <= COORD_MAX,
    ensures
        s == spec_sweep(max_step as int, min_radius as int),
        0 <= s <= 3_000_000_000_000_000,
{
    let numerator: u128 = 1_000_000_000_000u128 * (max_step as u128);
    let denominator: u128 = (min_radius as u128) * 1_570_796u128;
    let quotient: u128 = numerator / denominator;
    proof {
        lemma_div_is_ordered_by_denominator(numerator as int, 1_570_796, denominator as int);
        lemma_div_pos_is_pos(numerator as int, denominator as int);
    }
    quotient as i64
}

impl Angle {
    /// The turn is less than a full turn, and the vector is one between two
    /// points of the simulated space.
    pub open spec fn wf(self) -> bool {
        &&& 0 <= self.turn < TAU_MICRO
        &&& -2 * COORD_MAX <= self.rise <= 2 * COORD_MAX
        &&& -2 * COORD_MAX <= self.run <= 2 * COORD_MAX
    }

    /// Decides [`Angle::wf`].
    pub fn is_wf(&self) -> (b: bool)
        ensures
            b == self.wf(),
    {
        0 <= self.turn && self.turn < TAU_MICRO && -2 * COORD_MAX <= self.rise && self.rise <= 2
            * COORD_MAX && -2 * COORD_MAX <= self.run && self.run <= 2 * COORD_MAX
    }

    /// The direction of the vector `(run, rise)`, not turned.
    pub fn of_vector(rise: i64, run: i64) -> (a: Angle)
        ensures
            a == (Angle { rise, run, turn: 0 }),
    {
        Angle { rise, run, turn: 0 }
    }

    /// This angle turned by `by` micro-radians, the turn kept within one full
    /// turn.
    pub open spec fn spec_turned(self, by: int) -> Angle {
        Angle { rise: self.rise, run: self.run, turn: ((self.turn + by) % (TAU_MICRO as int)) as i64 }
    }

    /// Computes [`Angle::spec_turned`].
    pub fn turned(&self, by: i64) -> (a: Angle)
        requires
            self.wf(),
        ensures
            a == self.spec_turned(by as int),
            a.wf(),
    {
        let part: i64 = rem_of_turn(by);
        let sum: i64 = self.turn + part;
        let turn: i64 = if sum >= TAU_MICRO {
            sum - TAU_MICRO
        } else {
            sum
        };
        proof {
            let m = TAU_MICRO as int;
            let q = by as int / m;
            lemma_fundamental_div_mod(by as int, m);
            lemma_mod_multiples_vanish(q, self.turn + part, m);
            assert(self.turn + by == m * q + (self.turn + part));
            if sum >= TAU_MICRO {
                lemma_mod_multiples_vanish(1, sum - m, m);
                lemma_small_mod((sum - m) as nat, m as nat);
            } else {
                lemma_small_mod(sum as nat, m as nat);
            }
        }
        Angle { rise: self.rise, run: self.run, turn }
    }
}

/// The least non-negative number that differs from `by` by whole turns.
fn rem_of_turn(by: i64) -> (r: i64)
    ensures
        r == (by as int) % (TAU_MICRO as int),
        0 <= r < TAU_MICRO,
{
    let m: i64 = TAU_MICRO;
    if by >= 0 {
        by % m
    } else {
        let back: i64 = -(by + 1);
        let s: i64 = back % m;
        proof {
            let k = back as int / (m as int);
            lemma_fundamental_div_mod(back as int, m as int);
            assert(by == (m as int) * (-k - 1) + (m - 1 - s));
            lemma_mod_multiples_vanish(-k - 1, m - 1 - s, m as int);
            lemma_small_mod((m - 1 - s) as nat, m as nat);
        }
        m - 1 - s
    }
}

} // verus!
