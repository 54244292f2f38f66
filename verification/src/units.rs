//! Units of measure and the integer arithmetic the simulation is built on.
//!
//! The simulation is deterministic: every length is a whole number of
//! [`UNIT`]ths of a pixel, every scale factor a whole number of thousandths,
//! and every duration a whole number of microseconds.

use vstd::prelude::*;

verus! {

/// Length units in one pixel.
pub const UNIT: i64 = 1_000;

/// Every coordinate stays within this distance of the origin.
pub const COORD_MAX: i64 = 1_000_000_000;

/// A scale factor of one, in thousandths.
pub const SCALE_ONE: i64 = 1_000;

/// The largest magnitude a scale factor may have, in thousandths.
pub const SCALE_MAX: i64 = 1_000_000;

/// The scale at which ships and enemy projectiles are drawn, in thousandths.
pub const SCALE: i64 = 500;

/// Motion advances in fixed steps of one part in this many of a second.
pub const STEPS_PER_SECOND: i64 = 60;

/// A point, an extent or a pair of scale factors in the plane.
#[derive(Clone, Copy, Debug, PartialEq, Eq)]
pub struct Vec2 {
    pub x: i64,
    pub y: i64,
}

/// Whether `v` is a coordinate inside the simulated space.
pub open spec fn in_space(v: int) -> bool {
    -COORD_MAX <= v <= COORD_MAX
}

impl Vec2 {
    /// Both coordinates lie inside the simulated space.
    pub open spec fn in_space(self) -> bool {
        in_space(self.x as int) && in_space(self.y as int)
    }

    /// Both components are scale factors of admissible magnitude.
    pub open spec fn is_scale(self) -> bool {
        &&& -SCALE_MAX <= self.x <= SCALE_MAX
        &&& -SCALE_MAX <= self.y <= SCALE_MAX
    }

    /// Both components are extents: not negative, and no longer than the space.
    pub open spec fn is_extent(self) -> bool {
        0 <= self.x <= COORD_MAX && 0 <= self.y <= COORD_MAX
    }

    /// The pair `(x, y)`.
    pub fn new(x: i64, y: i64) -> (v: Vec2)
        ensures
            v == (Vec2 { x, y }),
    {
        Vec2 { x, y }
    }

    /// Decides [`Vec2::in_space`].
    pub fn check_in_space(&self) -> (b: bool)
        ensures
            b == self.in_space(),
    {
        -COORD_MAX <= self.x && self.x <= COORD_MAX && -COORD_MAX <= self.y && self.y
            <= COORD_MAX
    }

    /// Decides [`Vec2::is_scale`].
    pub fn check_scale(&self) -> (b: bool)
        ensures
            b == self.is_scale(),
    {
        -SCALE_MAX <= self.x && self.x <= SCALE_MAX && -SCALE_MAX <= self.y && self.y
            <= SCALE_MAX
    }

    /// Decides [`Vec2::is_extent`].
    pub fn check_extent(&self) -> (b: bool)
        ensures
            b == self.is_extent(),
    {
        0 <= self.x && self.x <= COORD_MAX && 0 <= self.y && self.y <= COORD_MAX
    }
}

/// The quotient of `n` by a positive `d`, rounded toward zero.
pub open spec fn spec_trunc_div(n: int, d: int) -> int {
    if n >= 0 {
        n / d
    } else {
        -((-n) / d)
    }
}

/// The magnitude of `v`.
pub open spec fn spec_abs(v: int) -> int {
    if v < 0 {
        -v
    } else {
        v
    }
}

/// The magnitude of `v`.
pub fn abs(v: i64) -> (r: i64)
    requires
        v > i64::MIN,
    ensures
        r == spec_abs(v as int),
{
    if v < 0 {
        -v
    } else {
        v
    }
}

/// The distance covered in one fixed step at `speed` units per second.
pub open spec fn spec_max_step(speed: int) -> int {
    speed / (STEPS_PER_SECOND as int)
}

/// `r` is the square root of `n`, rounded down.
pub open spec fn is_floor_sqrt(n: int, r: int) -> bool {
    0 <= r && r * r <= n < (r + 1) * (r + 1)
}

/// The square root of `n`, rounded down.
pub open spec fn spec_isqrt(n: int) -> int {
    choose|r: int| is_floor_sqrt(n, r)
}

/// A number has at most one rounded-down square root.
pub proof fn lemma_floor_sqrt_unique(n: int, a: int, b: int)
    requires
        is_floor_sqrt(n, a),
        is_floor_sqrt(n, b),
    ensures
        a == b,
{
    if a < b {
        assert((a + 1) * (a + 1) <= b * b) by (nonlinear_arith)
            requires
                0 <= a,
                a + 1 <= b,
        ;
    } else if b < a {
        assert((b + 1) * (b + 1) <= a * a) by (nonlinear_arith)
            requires
                0 <= b,
                b + 1 <= a,
        ;
    }
}

/// Every number that is not negative has a rounded-down square root.
pub proof fn lemma_isqrt_exists(n: int)
    requires
        0 <= n,
    ensures
        is_floor_sqrt(n, spec_isqrt(n)),
    decreases n,
{
    if n == 0 {
        assert(is_floor_sqrt(0, 0));
    } else {
        lemma_isqrt_exists(n - 1);
        let r = spec_isqrt(n - 1);
        if (r + 1) * (r + 1) <= n {
            assert((r + 1) * (r + 1) == n);
            assert(n < (r + 2) * (r + 2)) by (nonlinear_arith)
                requires
                    (r + 1) * (r + 1) == n,
                    0 <= r,
            ;
            assert(is_floor_sqrt(n, r + 1));
        } else {
            assert(r * r <= n) by (nonlinear_arith)
                requires
                    r * r <= n - 1,
            ;
            assert(is_floor_sqrt(n, r));
        }
    }
}

/// The square root of `n`, rounded down.
pub fn isqrt(n: u64) -> (r: u64)
    ensures
        is_floor_sqrt(n as int, r as int),
        r == spec_isqrt(n as int),
        r < 0x1_0000_0000,
{
    let mut low: u64 = 0;
    let mut high: u64 = 0x1_0000_0000;
    assert(n < high * high) by (nonlinear_arith)
        requires
            high == 0x1_0000_0000u64,
            n <= u64::MAX,
    ;
    while high - low > 1
        invariant
            low < high <= 0x1_0000_0000,
            low * low <= n < high * high,
        decreases high - low,
    {
        let mid: u64 = low + (high - low) / 2;
        assert(mid * mid <= 0xffff_ffff * 0xffff_ffff) by (nonlinear_arith)
            requires
                mid <= 0xffff_ffff,
        ;
        if mid * mid <= n {
            low = mid;
        } else {
            high = mid;
        }
    }
    proof {
        assert(high == low + 1);
        lemma_floor_sqrt_unique(n as int, low as int, spec_isqrt(n as int));
    }
    low
}

} // verus!
