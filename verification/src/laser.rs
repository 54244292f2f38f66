//! How projectiles fly: straight up or down by faction, until they leave
//! the playfield.

use vstd::prelude::*;
use crate::entity::Faction;
use crate::entity::Laser;
use crate::entity::Transform;
use crate::resources::WinSize;
use crate::rules::ENEMY_LASER_MARGIN;
use crate::units::Vec2;
use crate::world::World;
use crate::world::WorldView;

verus! {

impl Laser {
    /// The projectile one step on: the player's fly up, the enemies' fly
    /// down, by the distance the speed covers in a step.
    pub open spec fn spec_moved(self) -> Laser {
        let step = self.speed.spec_max_step();
        let y = self.transform.translation.y;
        Laser {
            transform: Transform {
                translation: Vec2 {
                    x: self.transform.translation.x,
                    y: match self.faction {
                        Faction::FromPlayer => (y + step) as i64,
                        Faction::FromEnemy => (y - step) as i64,
                    },
                },
                scale: self.transform.scale,
            },
            speed: self.speed,
            faction: self.faction,
        }
    }

    /// Whether the projectile has left a playfield of size `win`: the
    /// player's once it is at or above the top edge, the enemies' once it
    /// is more than the margin below the bottom edge.
    pub open spec fn spec_is_out(self, win: WinSize) -> bool {
        match self.faction {
            Faction::FromPlayer => self.transform.translation.y >= win.height / 2,
            Faction::FromEnemy => self.transform.translation.y < -(win.height / 2)
                - ENEMY_LASER_MARGIN,
        }
    }

    /// Computes [`Laser::spec_moved`].
    pub fn moved(&self) -> (l: Laser)
        requires
            self.wf(),
        ensures
            l == self.spec_moved(),
    {
        let step: i64 = self.speed.max_step();
        let y: i64 = match self.faction {
            Faction::FromPlayer => self.transform.translation.y + step,
            Faction::FromEnemy => self.transform.translation.y - step,
        };
        Laser {
            transform: Transform {
                translation: Vec2 { x: self.transform.translation.x, y },
                scale: self.transform.scale,
            },
            speed: self.speed,
            faction: self.faction,
        }
    }

    /// Decides [`Laser::spec_is_out`].
    pub fn is_out(&self, win: &WinSize) -> (b: bool)
        requires
            win.wf(),
        ensures
            b == self.spec_is_out(*win),
    {
        match self.faction {
            Faction::FromPlayer => self.transform.translation.y >= win.height / 2,
            Faction::FromEnemy => self.transform.translation.y < -(win.height / 2)
                - ENEMY_LASER_MARGIN,
        }
    }

    /// What one step makes of a projectile when those of `faction` move:
    /// it moves if it is one of them.
    pub open spec fn spec_stepped(self, faction: Faction) -> Laser {
        if self.faction == faction {
            self.spec_moved()
        } else {
            self
        }
    }

    /// Whether a projectile stays when those of `faction` that have left a
    /// playfield of size `win` are removed.
    pub open spec fn spec_stays(self, faction: Faction, win: WinSize) -> bool {
        !(self.faction == faction && self.spec_is_out(win))
    }
}

impl WorldView {
    /// The world after the projectiles of `faction` have moved one step:
    /// each of them has moved, and those that left the playfield by it are
    /// gone. Nothing else changes, and the others keep their order.
    pub open spec fn spec_laser_movement(self, faction: Faction) -> WorldView {
        WorldView {
            lasers: self.lasers.map_values(|l: Laser| l.spec_stepped(faction)).filter(
                |l: Laser| l.spec_stays(faction, self.win_size),
            ),
            ..self
        }
    }

    /// A projectile is removed on the step that takes it out of the
    /// playfield: after the projectiles of `faction` have moved, none of
    /// that faction is outside, and what remains are exactly the
    /// projectiles that moved without leaving, and the other faction's
    /// untouched.
    pub proof fn lemma_lasers_leave_when_they_cross(self, faction: Faction)
        ensures
            forall|i: int|
                0 <= i < self.spec_laser_movement(faction).lasers.len() ==> {
                    let l = #[trigger] self.spec_laser_movement(faction).lasers[i];
                    l.faction == faction ==> !l.spec_is_out(self.win_size)
                },
            forall|i: int|
                0 <= i < self.lasers.len() && (#[trigger] self.lasers[i]).faction == faction
                    && self.lasers[i].spec_moved().spec_is_out(self.win_size)
                    ==> !self.spec_laser_movement(faction).lasers.contains(
                    self.lasers[i].spec_moved(),
                ),
            forall|i: int|
                0 <= i < self.lasers.len() && !((#[trigger] self.lasers[i]).faction == faction
                    && self.lasers[i].spec_moved().spec_is_out(self.win_size))
                    ==> self.spec_laser_movement(faction).lasers.contains(
                    self.lasers[i].spec_stepped(faction),
                ),
    {
        let stepped = self.lasers.map_values(|l: Laser| l.spec_stepped(faction));
        let stays = |l: Laser| l.spec_stays(faction, self.win_size);
        let after = stepped.filter(stays);
        assert forall|i: int|
            0 <= i < self.lasers.len() && !((#[trigger] self.lasers[i]).faction == faction
                && self.lasers[i].spec_moved().spec_is_out(
                self.win_size,
            )) implies after.contains(self.lasers[i].spec_stepped(faction)) by {
            stepped.lemma_filter_contains(stays, i);
        }
    }
}

/// Moves the projectiles of `faction` one step and removes those that have
/// left the playfield.
pub fn move_lasers(world: &mut World, faction: Faction)
    requires
        old(world).wf(),
    ensures
        final(world)@ == old(world)@.spec_laser_movement(faction),
        final(world).wf(),
{
    let ghost pre = world@;
    let ghost stepped = |l: Laser| l.spec_stepped(faction);
    let ghost stays = |l: Laser| l.spec_stays(faction, pre.win_size);
    let mut kept: Vec<Laser> = Vec::new();
    let mut i: usize = 0;
    while i < world.lasers.len()
        invariant
            world@ == pre,
            pre.wf(),
            i <= pre.lasers.len(),
            stepped == |l: Laser| l.spec_stepped(faction),
            stays == |l: Laser| l.spec_stays(faction, pre.win_size),
            kept@ == pre.lasers.take(i as int).map_values(stepped).filter(stays),
            forall|k: int| 0 <= k < kept@.len() ==> (#[trigger] kept@[k]).wf(),
        decreases pre.lasers.len() - i,
    {
        let laser = world.lasers[i];
        let is_one = laser.faction == faction;
        let next = if is_one {
            laser.moved()
        } else {
            laser
        };
        let stay = !(is_one && next.is_out(&world.win_size));
        proof {
            let before = pre.lasers.take(i as int);
            assert(pre.lasers.take(i + 1) =~= before.push(laser));
            assert(before.push(laser).map_values(stepped) =~= before.map_values(stepped).push(
                next,
            ));
            before.map_values(stepped).lemma_filter_push(next, stays);
        }
        if stay {
            kept.push(next);
        }
        i += 1;
    }
    assert(pre.lasers.take(pre.lasers.len() as int) =~= pre.lasers);
    world.lasers = kept;
}

} // verus!
