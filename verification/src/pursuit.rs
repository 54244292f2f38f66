//! How one enemy moves in one step: toward the point of its formation's
//! path that lies one sweep ahead, never past it, and taking the path's
//! angle along only once it is close.

use vstd::prelude::*;
use crate::angle::spec_sweep;
use crate::angle::sweep;
use crate::angle::Angle;
use crate::angle::Direction;
use crate::entity::Enemy;
use crate::entity::Speed;
use crate::entity::Transform;
use crate::formation::Formation;
use crate::rules::COMMIT_DIVISOR;
use crate::units::isqrt;
use crate::units::lemma_isqrt_exists;
use crate::units::spec_abs;
use crate::units::spec_isqrt;
use crate::units::spec_trunc_div;
use crate::units::Vec2;
use crate::units::COORD_MAX;
use crate::units::UNIT;

verus! {

/// The distance between two points that lie `dx` and `dy` apart along the
/// axes, rounded down.
pub open spec fn spec_distance(dx: int, dy: int) -> int {
    spec_isqrt(dx * dx + dy * dy)
}

/// Computes [`spec_distance`].
pub fn distance(dx: i64, dy: i64) -> (d: i64)
    requires
        -2 * COORD_MAX <= dx <= 2 * COORD_MAX,
        -2 * COORD_MAX <= dy <= 2 * COORD_MAX,
    ensures
        d == spec_distance(dx as int, dy as int),
        0 <= d < 0x1_0000_0000,
        d == 0 <==> dx == 0 && dy == 0,
{
    assert(0 <= dx * dx <= 4_000_000_000_000_000_000) by (nonlinear_arith)
        requires
            -2_000_000_000 <= dx <= 2_000_000_000,
    ;
    assert(0 <= dy * dy <= 4_000_000_000_000_000_000) by (nonlinear_arith)
        requires
            -2_000_000_000 <= dy <= 2_000_000_000,
    ;
    let squares: u64 = (dx * dx) as u64 + (dy * dy) as u64;
    let d: u64 = isqrt(squares);
    proof {
        if dx != 0 {
            assert(dx * dx >= 1) by (nonlinear_arith)
                requires
                    dx != 0,
            ;
        }
        if dy != 0 {
            assert(dy * dy >= 1) by (nonlinear_arith)
                requires
                    dy != 0,
            ;
        }
        assert(d == 0 ==> squares == 0) by (nonlinear_arith)
            requires
                squares < (d + 1) * (d + 1),
                0 <= squares,
        ;
        assert(squares == 0 ==> d == 0) by (nonlinear_arith)
            requires
                d * d <= squares,
                0 <= d,
        ;
    }
    d as i64
}

/// Where a step of at most `max_step` takes one coordinate that is at `org`
/// and is headed for `dst`, the target being `distance` away in the plane:
/// the share of the step that falls to this axis is taken off, and the
/// result is held at `dst` if it would pass it.
pub open spec fn spec_pursue(org: int, dst: int, distance: int, max_step: int) -> int {
    let d = org - dst;
    let moved = if distance == 0 {
        org
    } else {
        org - spec_trunc_div(d * max_step, distance)
    };
    if d > 0 {
        if moved > dst {
            moved
        } else {
            dst
        }
    } else {
        if moved < dst {
            moved
        } else {
            dst
        }
    }
}

/// A step never overshoots: whatever the signs of the offsets, and however
/// long the step, the coordinate ends between where it was and its target.
pub proof fn lemma_pursue_never_overshoots(org: int, dst: int, distance: int, max_step: int)
    requires
        0 <= distance,
        0 <= max_step,
    ensures
        org <= dst ==> org <= spec_pursue(org, dst, distance, max_step) <= dst,
        org >= dst ==> org >= spec_pursue(org, dst, distance, max_step) >= dst,
{
    let d = org - dst;
    if distance > 0 {
        if d > 0 {
            assert(d * max_step >= 0) by (nonlinear_arith)
                requires
                    d > 0,
                    max_step >= 0,
            ;
            assert((d * max_step) / distance >= 0) by (nonlinear_arith)
                requires
                    d * max_step >= 0,
                    distance > 0,
            ;
        } else {
            assert(d * max_step <= 0) by (nonlinear_arith)
                requires
                    d <= 0,
                    max_step >= 0,
            ;
            assert((-(d * max_step)) / distance >= 0) by (nonlinear_arith)
                requires
                    d * max_step <= 0,
                    distance > 0,
            ;
        }
    }
}

/// A step is no longer than allowed: if the target is at least as far away
/// in the plane as along this axis, the coordinate moves by at most
/// `max_step`.
pub proof fn lemma_pursue_step_bounded(org: int, dst: int, distance: int, max_step: int)
    requires
        0 <= max_step,
        spec_abs(org - dst) <= distance,
    ensures
        spec_abs(spec_pursue(org, dst, distance, max_step) - org) <= max_step,
{
    let d = org - dst;
    if distance > 0 {
        let m = spec_abs(d);
        assert(0 <= m * max_step <= distance * max_step) by (nonlinear_arith)
            requires
                0 <= m <= distance,
                0 <= max_step,
        ;
        assert((m * max_step) / distance <= max_step) by (nonlinear_arith)
            requires
                0 <= m * max_step <= distance * max_step,
                distance > 0,
        ;
        assert((m * max_step) / distance >= 0) by (nonlinear_arith)
            requires
                0 <= m * max_step,
                distance > 0,
        ;
        if d < 0 {
            assert(-(d * max_step) == m * max_step) by (nonlinear_arith)
                requires
                    m == -d,
            ;
        }
    }
}

/// Two points are at least as far apart in the plane as along either axis.
pub proof fn lemma_distance_covers_axes(dx: int, dy: int)
    ensures
        spec_abs(dx) <= spec_distance(dx, dy),
        spec_abs(dy) <= spec_distance(dx, dy),
{
    let n = dx * dx + dy * dy;
    assert(0 <= dx * dx && 0 <= dy * dy) by (nonlinear_arith);
    lemma_isqrt_exists(n);
    let r = spec_isqrt(n);
    let ax = spec_abs(dx);
    let ay = spec_abs(dy);
    assert(ax * ax == dx * dx && ay * ay == dy * dy) by (nonlinear_arith)
        requires
            ax == dx || ax == -dx,
            ay == dy || ay == -dy,
    ;
    assert(ax <= r) by (nonlinear_arith)
        requires
            0 <= ax,
            0 <= r,
            ax * ax < (r + 1) * (r + 1),
    ;
    assert(ay <= r) by (nonlinear_arith)
        requires
            0 <= ay,
            0 <= r,
            ay * ay < (r + 1) * (r + 1),
    ;
}

/// Computes [`spec_pursue`].
pub fn pursue(org: i64, dst: i64, distance: i64, max_step: i64) -> (r: i64)
    requires
        -COORD_MAX <= org <= COORD_MAX,
        -COORD_MAX <= dst <= COORD_MAX,
        0 <= distance,
        0 <= max_step <= u32::MAX,
    ensures
        r == spec_pursue(org as int, dst as int, distance as int, max_step as int),
        org <= dst ==> org <= r <= dst,
        org >= dst ==> org >= r >= dst,
{
    proof {
        lemma_pursue_never_overshoots(org as int, dst as int, distance as int, max_step as int);
    }
    let d: i64 = org - dst;
    assert(-2_000_000_000 * 0xffff_ffff <= d * max_step <= 2_000_000_000 * 0xffff_ffff)
        by (nonlinear_arith)
        requires
            -2_000_000_000 <= d <= 2_000_000_000,
            0 <= max_step <= 0xffff_ffff,
    ;
    let moved: i64 = if distance == 0 {
        org
    } else {
        let share: i64 = (d * max_step) / distance;
        assert(-0x7fff_ffff_0000_0000 <= share <= 0x7fff_ffff_0000_0000) by (nonlinear_arith)
            requires
                share == spec_trunc_div(d * max_step, distance as int),
                distance > 0,
                -2_000_000_000 * 0xffff_ffff <= d * max_step <= 2_000_000_000 * 0xffff_ffff,
        ;
        org - share
    };
    if d > 0 {
        if moved > dst {
            moved
        } else {
            dst
        }
    } else {
        if moved < dst {
            moved
        } else {
            dst
        }
    }
}

/// Whether an enemy `distance` from its target is close enough for its
/// formation's angle to advance: with lengths in pixels and the speed in
/// pixels per second, `distance < max_step * speed / COMMIT_DIVISOR`.
pub open spec fn spec_commits(distance: int, speed: Speed) -> bool {
    distance * COMMIT_DIVISOR * UNIT < speed.spec_max_step() * speed.0
}

/// Decides [`spec_commits`].
pub fn commits(distance: i64, speed: &Speed) -> (b: bool)
    requires
        0 <= distance < 0x1_0000_0000,
    ensures
        b == spec_commits(distance as int, *speed),
{
    let step: i64 = speed.max_step();
    assert(0 <= step * speed.0 <= 0x7fff_ffff * 0xffff_ffff) by (nonlinear_arith)
        requires
            0 <= step <= 0x7fff_ffff,
            0 <= speed.0 <= 0xffff_ffff,
    ;
    distance * COMMIT_DIVISOR * UNIT < step * (speed.0 as i64)
}

impl Formation {
    /// The angle one sweep further along the path, for a group that moves at
    /// `speed`: the angle advanced, in the sense the group goes round, by
    /// the angle that one step covers on a circle of the lesser radius.
    pub open spec fn spec_candidate_angle(self, speed: Speed) -> Angle {
        self.angle.spec_turned(
            self.spec_sense() * spec_sweep(speed.spec_max_step(), self.spec_min_radius()),
        )
    }

    /// Computes [`Formation::spec_candidate_angle`].
    pub fn candidate_angle(&self, speed: &Speed) -> (a: Angle)
        requires
            self.wf(),
        ensures
            a == self.spec_candidate_angle(*speed),
            a.wf(),
    {
        let min_radius: i64 = if self.radius.x < self.radius.y {
            self.radius.x
        } else {
            self.radius.y
        };
        let by: i64 = sweep(speed.max_step(), min_radius);
        if self.start.x > 0 {
            self.angle.turned(by)
        } else {
            self.angle.turned(-by)
        }
    }
}

impl Enemy {
    /// The angle whose direction the enemy's next step is aimed by.
    pub open spec fn spec_candidate_angle(self) -> Angle {
        self.formation.spec_candidate_angle(self.speed)
    }

    /// Computes [`Enemy::spec_candidate_angle`].
    pub fn candidate_angle(&self) -> (a: Angle)
        requires
            self.wf(),
        ensures
            a == self.spec_candidate_angle(),
            a.wf(),
    {
        self.formation.candidate_angle(&self.speed)
    }

    /// How far the enemy is from the point of its path in direction `dir`.
    pub open spec fn spec_distance_to(self, dir: Direction) -> int {
        let dst = self.formation.spec_point(dir);
        spec_distance(self.transform.translation.x - dst.x, self.transform.translation.y - dst.y)
    }

    /// The enemy after one step, where `dir` is the direction of its
    /// candidate angle. It moves toward the point of its path in that
    /// direction, by at most the distance its speed covers in a step and
    /// never past the point on either axis. Its formation takes the
    /// candidate angle only if the enemy was close to the point; else the
    /// angle stays as it was.
    pub open spec fn spec_moved(self, dir: Direction) -> Enemy {
        let dst = self.formation.spec_point(dir);
        let org = self.transform.translation;
        let distance = self.spec_distance_to(dir);
        let max_step = self.speed.spec_max_step();
        Enemy {
            transform: Transform {
                translation: Vec2 {
                    x: spec_pursue(org.x as int, dst.x as int, distance, max_step) as i64,
                    y: spec_pursue(org.y as int, dst.y as int, distance, max_step) as i64,
                },
                scale: self.transform.scale,
            },
            speed: self.speed,
            formation: Formation {
                start: self.formation.start,
                radius: self.formation.radius,
                offset: self.formation.offset,
                angle: if spec_commits(distance, self.speed) {
                    self.spec_candidate_angle()
                } else {
                    self.formation.angle
                },
                group_id: self.formation.group_id,
            },
        }
    }

    /// Computes [`Enemy::spec_moved`].
    pub fn moved(&self, dir: &Direction) -> (e: Enemy)
        requires
            self.wf(),
            dir.wf(),
        ensures
            e == self.spec_moved(*dir),
            e.wf(),
    {
        let max_step: i64 = self.speed.max_step();
        let org = self.transform.translation;
        let angle = self.candidate_angle();
        let dst = self.formation.point(dir);
        let d: i64 = distance(org.x - dst.x, org.y - dst.y);
        let x: i64 = pursue(org.x, dst.x, d, max_step);
        let y: i64 = pursue(org.y, dst.y, d, max_step);
        let mut formation = self.formation;
        if commits(d, &self.speed) {
            formation.angle = angle;
        }
        Enemy {
            transform: Transform { translation: Vec2 { x, y }, scale: self.transform.scale },
            speed: self.speed,
            formation,
        }
    }

    /// An enemy never steps past its target, and never further than its
    /// speed allows: after a step each of its coordinates lies between
    /// where it was and the point it was headed for, and has changed by at
    /// most the distance its speed covers in a step.
    pub proof fn lemma_moved_never_overshoots(self, dir: Direction)
        ensures
            ({
                let org = self.transform.translation;
                let dst = self.formation.spec_point(dir);
                let now = self.spec_moved(dir).transform.translation;
                &&& org.x <= dst.x ==> org.x <= now.x <= dst.x
                &&& org.x >= dst.x ==> org.x >= now.x >= dst.x
                &&& org.y <= dst.y ==> org.y <= now.y <= dst.y
                &&& org.y >= dst.y ==> org.y >= now.y >= dst.y
                &&& spec_abs(now.x - org.x) <= self.speed.spec_max_step()
                &&& spec_abs(now.y - org.y) <= self.speed.spec_max_step()
            }),
    {
        let org = self.transform.translation;
        let dst = self.formation.spec_point(dir);
        let distance = self.spec_distance_to(dir);
        let max_step = self.speed.spec_max_step();
        lemma_distance_not_negative(org.x - dst.x, org.y - dst.y);
        lemma_distance_covers_axes(org.x - dst.x, org.y - dst.y);
        lemma_pursue_never_overshoots(org.x as int, dst.x as int, distance, max_step);
        lemma_pursue_never_overshoots(org.y as int, dst.y as int, distance, max_step);
        lemma_pursue_step_bounded(org.x as int, dst.x as int, distance, max_step);
        lemma_pursue_step_bounded(org.y as int, dst.y as int, distance, max_step);
    }
}

/// A distance is not negative.
pub proof fn lemma_distance_not_negative(dx: int, dy: int)
    ensures
        spec_distance(dx, dy) >= 0,
{
    let n = dx * dx + dy * dy;
    assert(n >= 0) by (nonlinear_arith)
        requires
            n == dx * dx + dy * dy,
    ;
    lemma_isqrt_exists(n);
}

} // verus!
