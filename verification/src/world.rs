//! The simulation context: every pool of entities and every shared counter,
//! passed to each system.

use vstd::prelude::*;
use crate::entity::Enemy;
use crate::entity::Explosion;
use crate::entity::ExplosionToSpawn;
use crate::entity::Laser;
use crate::entity::Player;
use crate::formation::FormationMaker;
use crate::resources::SpriteInfos;
use crate::resources::WinSize;

verus! {

/// The number of enemies alive.
#[derive(Clone, Copy, Debug, PartialEq, Eq)]
pub struct ActiveEnemies(pub u32);

/// Whether the player is alive, and when it was last shot down, in
/// microseconds since the start; zero stands for never.
#[derive(Clone, Copy, Debug, PartialEq, Eq)]
pub struct PlayerState {
    pub on: bool,
    pub last_shot: u64,
}

impl Default for PlayerState {
    /// No player alive, and none ever shot down.
    fn default() -> (s: PlayerState)
        ensures
            s == (PlayerState { on: false, last_shot: 0 }),
    {
        PlayerState { on: false, last_shot: 0 }
    }
}

impl PlayerState {
    /// Records that the player was shot down at `time`.
    pub fn shot(&mut self, time: u64)
        ensures
            *final(self) == (PlayerState { on: false, last_shot: time }),
    {
        self.on = false;
        self.last_shot = time;
    }

    /// Records that the player has appeared.
    pub fn spawned(&mut self)
        ensures
            *final(self) == (PlayerState { on: true, last_shot: 0 }),
    {
        self.on = true;
        self.last_shot = 0;
    }
}

/// What the player's controls report for one frame.
#[derive(Clone, Copy, Debug, PartialEq, Eq)]
pub struct Input {
    /// The key that steers left is down.
    pub left: bool,
    /// The key that steers right is down.
    pub right: bool,
    /// The fire key is down.
    pub fire: bool,
    /// The fire key went up in this frame.
    pub fire_released: bool,
}

/// Everything the systems read and change.
#[derive(Debug, PartialEq, Eq)]
pub struct World {
    pub win_size: WinSize,
    pub sprite_infos: SpriteInfos,
    pub active_enemies: ActiveEnemies,
    pub formation_maker: FormationMaker,
    pub player_state: PlayerState,
    pub enemies: Vec<Enemy>,
    pub lasers: Vec<Laser>,
    pub player: Option<Player>,
    pub explosions_to_spawn: Vec<ExplosionToSpawn>,
    pub explosions: Vec<Explosion>,
}

/// A [`World`] as contracts see it: each pool as the sequence of what it
/// holds.
pub struct WorldView {
    pub win_size: WinSize,
    pub sprite_infos: SpriteInfos,
    pub active_enemies: ActiveEnemies,
    pub formation_maker: FormationMaker,
    pub player_state: PlayerState,
    pub enemies: Seq<Enemy>,
    pub lasers: Seq<Laser>,
    pub player: Option<Player>,
    pub explosions_to_spawn: Seq<ExplosionToSpawn>,
    pub explosions: Seq<Explosion>,
}

impl View for World {
    type V = WorldView;

    open spec fn view(&self) -> WorldView {
        WorldView {
            win_size: self.win_size,
            sprite_infos: self.sprite_infos,
            active_enemies: self.active_enemies,
            formation_maker: self.formation_maker,
            player_state: self.player_state,
            enemies: self.enemies@,
            lasers: self.lasers@,
            player: self.player,
            explosions_to_spawn: self.explosions_to_spawn@,
            explosions: self.explosions@,
        }
    }
}

impl WorldView {
    /// An empty world on a playfield of the given size: nothing alive,
    /// nothing counted, no formation handed out, no player ever shot down.
    pub open spec fn spec_new(win_size: WinSize, sprite_infos: SpriteInfos) -> WorldView {
        WorldView {
            win_size,
            sprite_infos,
            active_enemies: ActiveEnemies(0),
            formation_maker: FormationMaker {
                group_seq: 0,
                current_formation: None,
                current_formation_members: 0,
            },
            player_state: PlayerState { on: false, last_shot: 0 },
            enemies: Seq::empty(),
            lasers: Seq::empty(),
            player: None,
            explosions_to_spawn: Seq::empty(),
            explosions: Seq::empty(),
        }
    }

    /// The resources and every entity are well formed, the counter of
    /// active enemies equals the number of enemies alive, and the player is
    /// recorded as alive exactly when there is one.
    pub open spec fn wf(self) -> bool {
        &&& self.win_size.wf()
        &&& self.sprite_infos.wf()
        &&& self.formation_maker.wf()
        &&& self.active_enemies.0 == self.enemies.len()
        &&& self.player_state.on <==> self.player is Some
        &&& self.player matches Some(p) ==> p.wf()
        &&& forall|i: int| 0 <= i < self.enemies.len() ==> (#[trigger] self.enemies[i]).wf()
        &&& forall|i: int| 0 <= i < self.lasers.len() ==> (#[trigger] self.lasers[i]).wf()
        &&& forall|i: int|
            0 <= i < self.explosions.len() ==> (#[trigger] self.explosions[i]).wf()
    }

    /// The counter of active enemies is the number of enemies alive, in
    /// every well-formed world: every system takes a well-formed world to a
    /// well-formed world.
    pub proof fn lemma_counter_counts_enemies(self)
        requires
            self.wf(),
        ensures
            self.active_enemies.0 == self.enemies.len(),
    {
    }
}

impl World {
    /// The world's view is well formed.
    pub open spec fn wf(self) -> bool {
        self@.wf()
    }

    /// An empty world on a playfield of the given size.
    pub fn new(win_size: WinSize, sprite_infos: SpriteInfos) -> (w: World)
        requires
            win_size.wf(),
            sprite_infos.wf(),
        ensures
            w.wf(),
            w@ == WorldView::spec_new(win_size, sprite_infos),
    {
        World {
            win_size,
            sprite_infos,
            active_enemies: ActiveEnemies(0),
            formation_maker: FormationMaker::new(),
            player_state: PlayerState::default(),
            enemies: Vec::new(),
            lasers: Vec::new(),
            player: None,
            explosions_to_spawn: Vec::new(),
            explosions: Vec::new(),
        }
    }

    /// Decides [`World::wf`].
    pub fn is_wf(&self) -> (b: bool)
        ensures
            b == self.wf(),
    {
        if !(self.win_size.is_wf() && self.sprite_infos.is_wf() && self.formation_maker.is_wf()) {
            return false;
        }
        if self.enemies.len() > u32::MAX as usize || self.active_enemies.0 as usize
            != self.enemies.len() {
            return false;
        }
        match &self.player {
            Some(p) => {
                if !self.player_state.on || !p.is_wf() {
                    return false;
                }
            },
            None => {
                if self.player_state.on {
                    return false;
                }
            },
        }
        let mut i: usize = 0;
        while i < self.enemies.len()
            invariant
                i <= self.enemies@.len(),
                forall|k: int| 0 <= k < i ==> (#[trigger] self.enemies@[k]).wf(),
            decreases self.enemies@.len() - i,
        {
            if !self.enemies[i].is_wf() {
                return false;
            }
            i += 1;
        }
        let mut j: usize = 0;
        while j < self.lasers.len()
            invariant
                j <= self.lasers@.len(),
                forall|k: int| 0 <= k < j ==> (#[trigger] self.lasers@[k]).wf(),
            decreases self.lasers@.len() - j,
        {
            if !self.lasers[j].is_wf() {
                assert(!self@.lasers[j as int].wf());
                return false;
            }
            j += 1;
        }
        let mut k: usize = 0;
        while k < self.explosions.len()
            invariant
                k <= self.explosions@.len(),
                forall|n: int| 0 <= n < k ==> (#[trigger] self.explosions@[n]).wf(),
            decreases self.explosions@.len() - k,
        {
            if !self.explosions[k].is_wf() {
                assert(!self@.explosions[k as int].wf());
                return false;
            }
            k += 1;
        }
        true
    }
}

} // verus!
