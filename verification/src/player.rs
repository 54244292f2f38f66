//! The player systems: appearing, steering, firing and the flight of the
//! player's projectiles.

use vstd::prelude::*;
use crate::entity::Faction;
use crate::entity::Laser;
use crate::entity::Player;
use crate::entity::Speed;
use crate::entity::Transform;
use crate::laser::move_lasers;
use crate::resources::WinSize;
use crate::rules::DEFAULT_SPEED;
use crate::rules::PLAYER_MUZZLE_RISE;
use crate::rules::PLAYER_MUZZLE_SPREAD;
use crate::rules::PLAYER_RESPAWN_DELAY;
use crate::rules::PLAYER_SPAWN_PERIOD;
use crate::rules::PLAYER_SPAWN_RISE;
use crate::timer::Timer;
use crate::units::Vec2;
use crate::units::COORD_MAX;
use crate::units::SCALE;
use crate::units::SCALE_ONE;
use crate::world::Input;
use crate::world::PlayerState;
use crate::world::World;
use crate::world::WorldView;

verus! {

impl PlayerState {
    /// Whether a player appears at time `now`: none is alive, and either
    /// none was ever shot down or `now` is still less than
    /// [`PLAYER_RESPAWN_DELAY`] after the latest death.
    pub open spec fn spec_respawns(self, now: u64) -> bool {
        !self.on && (self.last_shot == 0 || now < self.last_shot + PLAYER_RESPAWN_DELAY)
    }

    /// Decides [`PlayerState::spec_respawns`].
    pub fn respawns(&self, now: u64) -> (b: bool)
        ensures
            b == self.spec_respawns(now),
    {
        !self.on && (self.last_shot == 0 || self.last_shot > u64::MAX - PLAYER_RESPAWN_DELAY || now
            < self.last_shot + PLAYER_RESPAWN_DELAY)
    }
}

impl Input {
    /// The way the player steers: `-1` for left, `1` for right, `0` for
    /// neither; left wins over right.
    pub open spec fn spec_steer(self) -> int {
        if self.left {
            -1
        } else if self.right {
            1
        } else {
            0
        }
    }
}

impl Player {
    /// A new player on a playfield of size `win`: centred, a little above
    /// the bottom edge, at the scale ships are drawn at, with the default
    /// speed and ready to fire.
    pub open spec fn spec_new(win: WinSize) -> Player {
        Player {
            transform: Transform {
                translation: Vec2 { x: 0, y: (-(win.height / 2) + PLAYER_SPAWN_RISE) as i64 },
                scale: Vec2 { x: SCALE, y: SCALE },
            },
            speed: Speed(DEFAULT_SPEED),
            ready_fire: true,
        }
    }

    /// Computes [`Player::spec_new`].
    pub fn new(win: &WinSize) -> (p: Player)
        requires
            win.wf(),
        ensures
            p == Player::spec_new(*win),
            p.wf(),
    {
        Player {
            transform: Transform {
                translation: Vec2 { x: 0, y: -(win.height / 2) + PLAYER_SPAWN_RISE },
                scale: Vec2 { x: SCALE, y: SCALE },
            },
            speed: Speed(DEFAULT_SPEED),
            ready_fire: true,
        }
    }

    /// The player after one step of steering by `input`: moved left or
    /// right by the distance its speed covers in a step, and held at the
    /// edge of the simulated space.
    pub open spec fn spec_steered(self, input: Input) -> Player {
        let x = self.transform.translation.x + input.spec_steer() * self.speed.spec_max_step();
        Player {
            transform: Transform {
                translation: Vec2 {
                    x: if x < -COORD_MAX {
                        (-COORD_MAX) as i64
                    } else if x > COORD_MAX {
                        COORD_MAX
                    } else {
                        x as i64
                    },
                    y: self.transform.translation.y,
                },
                scale: self.transform.scale,
            },
            speed: self.speed,
            ready_fire: self.ready_fire,
        }
    }

    /// Computes [`Player::spec_steered`].
    pub fn steered(&self, input: &Input) -> (p: Player)
        requires
            self.wf(),
        ensures
            p == self.spec_steered(*input),
            p.wf(),
    {
        let step: i64 = self.speed.max_step();
        let x: i64 = if input.left {
            self.transform.translation.x - step
        } else if input.right {
            self.transform.translation.x + step
        } else {
            self.transform.translation.x
        };
        let held: i64 = if x < -COORD_MAX {
            -COORD_MAX
        } else if x > COORD_MAX {
            COORD_MAX
        } else {
            x
        };
        Player {
            transform: Transform {
                translation: Vec2 { x: held, y: self.transform.translation.y },
                scale: self.transform.scale,
            },
            speed: self.speed,
            ready_fire: self.ready_fire,
        }
    }

    /// Whether the player fires in a frame with `input`: it is ready, and
    /// the fire key is down.
    pub open spec fn spec_fires(self, input: Input) -> bool {
        self.ready_fire && input.fire
    }

    /// The projectile the player fires `side` to the right of its centre:
    /// a little above the player, at full scale, with the default speed.
    pub open spec fn spec_laser(self, side: int) -> Laser {
        Laser {
            transform: Transform {
                translation: Vec2 {
                    x: (self.transform.translation.x + side) as i64,
                    y: (self.transform.translation.y + PLAYER_MUZZLE_RISE) as i64,
                },
                scale: Vec2 { x: SCALE_ONE, y: SCALE_ONE },
            },
            speed: Speed(DEFAULT_SPEED),
            faction: Faction::FromPlayer,
        }
    }

    /// Computes [`Player::spec_laser`].
    pub fn laser(&self, side: i64) -> (l: Laser)
        requires
            self.wf(),
            -COORD_MAX <= side <= COORD_MAX,
        ensures
            l == self.spec_laser(side as int),
            l.wf(),
    {
        Laser {
            transform: Transform {
                translation: Vec2 {
                    x: self.transform.translation.x + side,
                    y: self.transform.translation.y + PLAYER_MUZZLE_RISE,
                },
                scale: Vec2 { x: SCALE_ONE, y: SCALE_ONE },
            },
            speed: Speed(DEFAULT_SPEED),
            faction: Faction::FromPlayer,
        }
    }

    /// Whether the player is ready to fire after a frame with `input`:
    /// a release of the fire key makes it ready, firing makes it not ready,
    /// and otherwise it stays as it was.
    pub open spec fn spec_ready_after(self, input: Input) -> bool {
        if input.fire_released {
            true
        } else if self.spec_fires(input) {
            false
        } else {
            self.ready_fire
        }
    }
}

impl WorldView {
    /// The world after the spawn check at time `now`: if the respawn rule
    /// allows it, a new player has appeared and is recorded as alive.
    /// Otherwise nothing changes.
    pub open spec fn spec_player_spawn(self, now: u64) -> WorldView {
        if self.player_state.spec_respawns(now) {
            WorldView {
                player: Some(Player::spec_new(self.win_size)),
                player_state: PlayerState { on: true, last_shot: 0 },
                ..self
            }
        } else {
            self
        }
    }

    /// The world after the player has steered by `input`. Nothing changes
    /// if there is no player.
    pub open spec fn spec_player_movement(self, input: Input) -> WorldView {
        match self.player {
            Some(p) => WorldView { player: Some(p.spec_steered(input)), ..self },
            None => self,
        }
    }

    /// The world after the fire control has been read. A player that fires
    /// adds two projectiles, the right one first, [`PLAYER_MUZZLE_SPREAD`]
    /// to either side of its centre, and is then not ready to fire until
    /// the fire key is released. Nothing changes if there is no player.
    pub open spec fn spec_player_fire(self, input: Input) -> WorldView {
        match self.player {
            Some(p) => WorldView {
                lasers: if p.spec_fires(input) {
                    self.lasers.push(p.spec_laser(PLAYER_MUZZLE_SPREAD as int)).push(
                        p.spec_laser(-PLAYER_MUZZLE_SPREAD),
                    )
                } else {
                    self.lasers
                },
                player: Some(
                    Player {
                        transform: p.transform,
                        speed: p.speed,
                        ready_fire: p.spec_ready_after(input),
                    },
                ),
                ..self
            },
            None => self,
        }
    }
}

/// The player systems with their cadence: the spawn check runs on a timer,
/// the others in every frame.
#[derive(Clone, Copy, Debug, PartialEq, Eq)]
pub struct PlayerPlugin {
    pub spawn_timer: Timer,
}

impl WorldView {
    /// The world as the player systems find it at the start: no player,
    /// and none ever shot down.
    pub open spec fn spec_without_player(self) -> WorldView {
        WorldView { player: None, player_state: PlayerState { on: false, last_shot: 0 }, ..self }
    }

    /// Holding the fire key does not repeat the shot: while the player is
    /// not ready and no release of the key is seen, reading the fire
    /// control adds no projectile and leaves the player not ready.
    pub proof fn lemma_held_fire_does_not_repeat(self, input: Input)
        requires
            self.player matches Some(p) && !p.ready_fire,
            !input.fire_released,
        ensures
            self.spec_player_fire(input) == self,
    {
    }

    /// A shot is two projectiles and spends the readiness: a player that
    /// is ready fires, with the fire key down, exactly two projectiles,
    /// [`PLAYER_MUZZLE_SPREAD`] to the right and to the left of its centre,
    /// and is then not ready unless the key was released in the same frame.
    pub proof fn lemma_shot_is_two_projectiles(self, input: Input)
        requires
            self.player matches Some(p) && p.wf() && p.ready_fire,
            input.fire,
        ensures
            ({
                let p = self.player->0;
                let after = self.spec_player_fire(input);
                &&& after.lasers.len() == self.lasers.len() + 2
                &&& after.lasers[self.lasers.len() as int].transform.translation.x
                    == p.transform.translation.x + PLAYER_MUZZLE_SPREAD
                &&& after.lasers[self.lasers.len() as int + 1].transform.translation.x
                    == p.transform.translation.x - PLAYER_MUZZLE_SPREAD
                &&& after.player->0.ready_fire == input.fire_released
            }),
    {
    }

    /// A second spawn check at the same time changes nothing: however
    /// often the check runs in a frame, it is as if it ran once.
    pub proof fn lemma_player_spawn_idempotent(self, now: u64)
        ensures
            self.spec_player_spawn(now).spec_player_spawn(now) == self.spec_player_spawn(now),
    {
    }
}

impl PlayerPlugin {
    /// The timer is well formed.
    pub open spec fn wf(self) -> bool {
        self.spawn_timer.wf()
    }

    /// Decides [`PlayerPlugin::wf`].
    pub fn is_wf(&self) -> (b: bool)
        ensures
            b == self.wf(),
    {
        self.spawn_timer.is_wf()
    }

    /// The plugin with its timer at rest: the spawn check runs every
    /// [`PLAYER_SPAWN_PERIOD`].
    pub open spec fn spec_new() -> PlayerPlugin {
        PlayerPlugin {
            spawn_timer: Timer { duration: PLAYER_SPAWN_PERIOD, elapsed: 0, times_finished: 0 },
        }
    }

    /// Computes [`PlayerPlugin::spec_new`].
    pub fn new() -> (p: PlayerPlugin)
        ensures
            p == PlayerPlugin::spec_new(),
            p.wf(),
    {
        PlayerPlugin { spawn_timer: Timer::new(PLAYER_SPAWN_PERIOD) }
    }

    /// Sets `world` up for the player systems at time `now`: the player's
    /// record starts afresh, and the spawn check runs once.
    pub fn build(&self, world: &mut World, now: u64)
        requires
            old(world).wf(),
        ensures
            final(world)@ == old(world)@.spec_without_player().spec_player_spawn(now),
            final(world).wf(),
    {
        world.player = None;
        world.player_state = PlayerState::default();
        player_spawn(world, now);
    }

    /// The plugin after a frame of `delta` microseconds.
    pub open spec fn spec_ticked(self, delta: u64) -> PlayerPlugin {
        PlayerPlugin { spawn_timer: self.spawn_timer.spec_tick(delta) }
    }

    /// What one frame of `delta` microseconds that ends at time `now`
    /// makes of `world`: the player steers, the fire control is read, the
    /// player's projectiles move, and if the timer completed a period in
    /// the frame the spawn check runs.
    pub open spec fn spec_update(self, world: WorldView, delta: u64, now: u64, input: Input) -> WorldView {
        let moved = world.spec_player_movement(input).spec_player_fire(input).spec_laser_movement(
            Faction::FromPlayer,
        );
        if self.spec_ticked(delta).spawn_timer.spec_finished() {
            moved.spec_player_spawn(now)
        } else {
            moved
        }
    }

    /// Runs the player systems for a frame of `delta` microseconds that
    /// ends at time `now`: see [`PlayerPlugin::spec_update`].
    pub fn update(&mut self, world: &mut World, delta: u64, now: u64, input: &Input)
        requires
            old(self).wf(),
            old(world).wf(),
        ensures
            *final(self) == old(self).spec_ticked(delta),
            final(world)@ == old(self).spec_update(old(world)@, delta, now, *input),
            final(self).wf(),
            final(world).wf(),
    {
        player_movement(world, input);
        player_fire(world, input);
        laser_movement(world);
        self.spawn_timer.tick(delta);
        if self.spawn_timer.finished() {
            player_spawn(world, now);
        }
    }
}

/// Checks at time `now` whether a player is to appear, and lets it: see
/// [`WorldView::spec_player_spawn`].
pub fn player_spawn(world: &mut World, now: u64)
    requires
        old(world).wf(),
    ensures
        final(world)@ == old(world)@.spec_player_spawn(now),
        final(world).wf(),
{
    if world.player_state.respawns(now) {
        world.player = Some(Player::new(&world.win_size));
        world.player_state.spawned();
    }
}

/// Steers the player by `input`: see [`WorldView::spec_player_movement`].
pub fn player_movement(world: &mut World, input: &Input)
    requires
        old(world).wf(),
    ensures
        final(world)@ == old(world)@.spec_player_movement(*input),
        final(world).wf(),
{
    match world.player {
        Some(p) => {
            world.player = Some(p.steered(input));
        },
        None => {},
    }
}

/// Reads the fire control: see [`WorldView::spec_player_fire`].
pub fn player_fire(world: &mut World, input: &Input)
    requires
        old(world).wf(),
    ensures
        final(world)@ == old(world)@.spec_player_fire(*input),
        final(world).wf(),
{
    match world.player {
        Some(p) => {
            let mut ready_fire = p.ready_fire;
            if ready_fire && input.fire {
                world.lasers.push(p.laser(PLAYER_MUZZLE_SPREAD));
                world.lasers.push(p.laser(-PLAYER_MUZZLE_SPREAD));
                ready_fire = false;
            }
            if input.fire_released {
                ready_fire = true;
            }
            world.player = Some(Player { transform: p.transform, speed: p.speed, ready_fire });
        },
        None => {},
    }
}

/// Moves the player's projectiles one step up and removes those that
/// have reached the top edge of the playfield or risen above it.
pub fn laser_movement(world: &mut World)
    requires
        old(world).wf(),
    ensures
        final(world)@ == old(world)@.spec_laser_movement(Faction::FromPlayer),
        final(world).wf(),
{
    move_lasers(world, Faction::FromPlayer)
}

} // verus!
