//! What the simulation is told about its surroundings: the size of the
//! playfield and the extents of the sprites.

use vstd::prelude::*;
use crate::rules::FORMATION_MARGIN;
use crate::units::Vec2;
use crate::units::COORD_MAX;

verus! {

/// The size of the playfield, whose centre is the origin.
#[derive(Clone, Copy, Debug, PartialEq, Eq)]
pub struct WinSize {
    pub width: i64,
    pub height: i64,
}

impl WinSize {
    /// Neither side is negative or longer than the simulated space.
    pub open spec fn wf(self) -> bool {
        0 <= self.width <= COORD_MAX && 0 <= self.height <= COORD_MAX
    }

    /// Half the height less the margin kept free of formation starts,
    /// rounded up to a whole unit; nothing where the margins meet.
    pub open spec fn spec_h_span(self) -> int {
        if self.height > 2 * FORMATION_MARGIN {
            (self.height - 2 * FORMATION_MARGIN + 1) / 2
        } else {
            0
        }
    }

    /// A quarter of the width, rounded up to a whole unit.
    pub open spec fn spec_w_span(self) -> int {
        if self.width > 0 {
            (self.width + 3) / 4
        } else {
            0
        }
    }

    /// The playfield is large enough to place a formation in: it has some
    /// width, and some height is left between the margins.
    pub open spec fn has_room(self) -> bool {
        self.width > 0 && self.height > 2 * FORMATION_MARGIN
    }

    /// Decides [`WinSize::wf`].
    pub fn is_wf(&self) -> (b: bool)
        ensures
            b == self.wf(),
    {
        0 <= self.width && self.width <= COORD_MAX && 0 <= self.height && self.height
            <= COORD_MAX
    }

    /// Computes [`WinSize::spec_h_span`].
    pub fn h_span(&self) -> (h: i64)
        requires
            self.wf(),
        ensures
            h == self.spec_h_span(),
    {
        if self.height > 2 * FORMATION_MARGIN {
            (self.height - 2 * FORMATION_MARGIN + 1) / 2
        } else {
            0
        }
    }

    /// Computes [`WinSize::spec_w_span`].
    pub fn w_span(&self) -> (w: i64)
        requires
            self.wf(),
        ensures
            w == self.spec_w_span(),
    {
        if self.width > 0 {
            (self.width + 3) / 4
        } else {
            0
        }
    }

    /// Decides [`WinSize::has_room`].
    pub fn is_roomy(&self) -> (b: bool)
        ensures
            b == self.has_room(),
    {
        self.width > 0 && self.height > 2 * FORMATION_MARGIN
    }
}

/// The extent of each kind of sprite before scaling, and the number of
/// frames in the explosion sheet.
#[derive(Clone, Copy, Debug, PartialEq, Eq)]
pub struct SpriteInfos {
    pub player: Vec2,
    pub player_laser: Vec2,
    pub enemy: Vec2,
    pub enemy_laser: Vec2,
    pub explosion_frames: usize,
}

impl SpriteInfos {
    /// Every extent is one.
    pub open spec fn wf(self) -> bool {
        &&& self.player.is_extent()
        &&& self.player_laser.is_extent()
        &&& self.enemy.is_extent()
        &&& self.enemy_laser.is_extent()
    }

    /// Decides [`SpriteInfos::wf`].
    pub fn is_wf(&self) -> (b: bool)
        ensures
            b == self.wf(),
    {
        self.player.check_extent() && self.player_laser.check_extent()
            && self.enemy.check_extent() && self.enemy_laser.check_extent()
    }
}

} // verus!
