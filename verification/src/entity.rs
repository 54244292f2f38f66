//! What lives in the playfield: ships, projectiles and explosions.

use vstd::prelude::*;
use crate::formation::Formation;
use crate::rules::DEFAULT_SPEED;
use crate::timer::Timer;
use crate::units::spec_max_step;
use crate::units::Vec2;
use crate::units::COORD_MAX;
use crate::units::STEPS_PER_SECOND;

verus! {

/// A speed, in units per second.
#[derive(Clone, Copy, Debug, PartialEq, Eq)]
pub struct Speed(pub u32);

impl Default for Speed {
    /// The speed every ship and projectile is created with.
    fn default() -> (s: Speed)
        ensures
            s == Speed(DEFAULT_SPEED),
    {
        Speed(DEFAULT_SPEED)
    }
}

impl Speed {
    /// The distance covered in one fixed step.
    pub open spec fn spec_max_step(self) -> int {
        spec_max_step(self.0 as int)
    }

    /// Computes [`Speed::spec_max_step`].
    pub fn max_step(&self) -> (d: i64)
        ensures
            d == self.spec_max_step(),
            0 <= d <= u32::MAX / 60,
    {
        (self.0 as i64) / STEPS_PER_SECOND
    }
}

/// Which side fired a projectile.
#[derive(Clone, Copy, Debug, PartialEq, Eq, Structural)]
pub enum Faction {
    FromPlayer,
    FromEnemy,
}

/// Where something is and at what scale it is drawn, the scale in
/// thousandths along each axis.
#[derive(Clone, Copy, Debug, PartialEq, Eq)]
pub struct Transform {
    pub translation: Vec2,
    pub scale: Vec2,
}

/// Whether `v` is a coordinate that a projectile may have: projectiles
/// appear beside ships and so may lie a little outside the simulated space.
pub open spec fn in_reach(v: int) -> bool {
    -2 * COORD_MAX <= v <= 2 * COORD_MAX
}

impl Transform {
    /// The position lies in the simulated space and the scale is
    /// admissible.
    pub open spec fn wf(self) -> bool {
        self.translation.in_space() && self.scale.is_scale()
    }

    /// The position lies within reach of the simulated space and the scale
    /// is admissible.
    pub open spec fn wf_in_reach(self) -> bool {
        &&& in_reach(self.translation.x as int)
        &&& in_reach(self.translation.y as int)
        &&& self.scale.is_scale()
    }

    /// Decides [`Transform::wf`].
    pub fn is_wf(&self) -> (b: bool)
        ensures
            b == self.wf(),
    {
        self.translation.check_in_space() && self.scale.check_scale()
    }

    /// Decides [`Transform::wf_in_reach`].
    pub fn is_wf_in_reach(&self) -> (b: bool)
        ensures
            b == self.wf_in_reach(),
    {
        -2 * COORD_MAX <= self.translation.x && self.translation.x <= 2 * COORD_MAX && -2
            * COORD_MAX <= self.translation.y && self.translation.y <= 2 * COORD_MAX
            && self.scale.check_scale()
    }
}

/// An enemy ship and the formation it flies in.
#[derive(Clone, Copy, Debug, PartialEq, Eq)]
pub struct Enemy {
    pub transform: Transform,
    pub speed: Speed,
    pub formation: Formation,
}

impl Enemy {
    /// The enemy lies in the simulated space and its formation is well
    /// formed.
    pub open spec fn wf(self) -> bool {
        self.transform.wf() && self.formation.wf()
    }

    /// Decides [`Enemy::wf`].
    pub fn is_wf(&self) -> (b: bool)
        ensures
            b == self.wf(),
    {
        self.transform.is_wf() && self.formation.is_wf()
    }
}

/// A projectile.
#[derive(Clone, Copy, Debug, PartialEq, Eq)]
pub struct Laser {
    pub transform: Transform,
    pub speed: Speed,
    pub faction: Faction,
}

impl Laser {
    /// The projectile lies within reach of the simulated space.
    pub open spec fn wf(self) -> bool {
        self.transform.wf_in_reach()
    }

    /// Decides [`Laser::wf`].
    pub fn is_wf(&self) -> (b: bool)
        ensures
            b == self.wf(),
    {
        self.transform.is_wf_in_reach()
    }
}

/// The player's ship. It fires only while `ready_fire` is set.
#[derive(Clone, Copy, Debug, PartialEq, Eq)]
pub struct Player {
    pub transform: Transform,
    pub speed: Speed,
    pub ready_fire: bool,
}

impl Player {
    /// The player lies in the simulated space.
    pub open spec fn wf(self) -> bool {
        self.transform.wf()
    }

    /// Decides [`Player::wf`].
    pub fn is_wf(&self) -> (b: bool)
        ensures
            b == self.wf(),
    {
        self.transform.is_wf()
    }
}

/// A request for an explosion at a place, turned into an [`Explosion`] by
/// the next run of the explosion systems.
#[derive(Clone, Copy, Debug, PartialEq, Eq)]
pub struct ExplosionToSpawn(pub Vec2);

/// An explosion that is playing: where it is, the timer that paces its
/// frames, and the frame it shows.
#[derive(Clone, Copy, Debug, PartialEq, Eq)]
pub struct Explosion {
    pub translation: Vec2,
    pub timer: Timer,
    pub index: usize,
}

impl Explosion {
    /// The timer is well formed.
    pub open spec fn wf(self) -> bool {
        self.timer.wf()
    }

    /// Decides [`Explosion::wf`].
    pub fn is_wf(&self) -> (b: bool)
        ensures
            b == self.wf(),
    {
        self.timer.is_wf()
    }
}

} // verus!
