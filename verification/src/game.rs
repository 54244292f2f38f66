//! The whole game: the world, the two plugins, and the order in which the
//! systems run in a frame.

use vstd::prelude::*;
use crate::angle::Direction;
use crate::collision::enemy_laser_hit_player;
use crate::collision::player_laser_hit_enemy;
use crate::enemy::EnemyPlugin;
use crate::entity::Faction;
use crate::explosion::animate_explosion;
use crate::explosion::explosion_to_spawn;
use crate::formation::FormationDraw;
use crate::player::PlayerPlugin;
use crate::resources::SpriteInfos;
use crate::resources::WinSize;
use crate::world::Input;
use crate::world::World;
use crate::world::WorldView;

verus! {

/// A game in progress.
#[derive(Debug, PartialEq, Eq)]
pub struct Invaders {
    pub world: World,
    pub enemy_plugin: EnemyPlugin,
    pub player_plugin: PlayerPlugin,
}

/// An [`Invaders`] as contracts see it.
pub struct InvadersView {
    pub world: WorldView,
    pub enemy_plugin: EnemyPlugin,
    pub player_plugin: PlayerPlugin,
}

impl View for Invaders {
    type V = InvadersView;

    open spec fn view(&self) -> InvadersView {
        InvadersView {
            world: self.world@,
            enemy_plugin: self.enemy_plugin,
            player_plugin: self.player_plugin,
        }
    }
}

impl InvadersView {
    /// A new game on a playfield of the given size at time `now`: an empty
    /// world that the player plugin and then the enemy plugin have set up,
    /// and both plugins with their timers at rest.
    pub open spec fn spec_new(win_size: WinSize, sprite_infos: SpriteInfos, now: u64) -> InvadersView {
        InvadersView {
            world: WorldView::spec_new(
                win_size,
                sprite_infos,
            ).spec_without_player().spec_player_spawn(now).spec_with_new_maker(),
            enemy_plugin: EnemyPlugin::spec_new(),
            player_plugin: PlayerPlugin::spec_new(),
        }
    }

    /// The world and both plugins are well formed.
    pub open spec fn wf(self) -> bool {
        self.world.wf() && self.enemy_plugin.wf() && self.player_plugin.wf()
    }

    /// The game after a frame of `delta` microseconds that ends at time
    /// `now`, with the controls as `input` reports them, where `dirs` aims
    /// the enemies and `draws` stands for chance. The requests for
    /// explosions left by the frame before are taken up and the explosions
    /// play; the enemy systems run, then the player systems; last the
    /// projectiles are held against their targets where everything now is,
    /// the player's against the enemies first.
    pub open spec fn spec_update(
        self,
        delta: u64,
        now: u64,
        input: Input,
        dirs: Seq<Direction>,
        draws: Seq<FormationDraw>,
    ) -> InvadersView {
        let played = self.world.spec_explosion_to_spawn().spec_animate_explosion(delta);
        let enemies_done = self.enemy_plugin.spec_update(played, delta, dirs, draws);
        let players_done = self.player_plugin.spec_update(enemies_done, delta, now, input);
        InvadersView {
            world: players_done.spec_player_laser_hit_enemy().spec_enemy_laser_hit_player(now),
            enemy_plugin: self.enemy_plugin.spec_ticked(delta),
            player_plugin: self.player_plugin.spec_ticked(delta),
        }
    }

    /// In every frame the counter of active enemies goes on counting the
    /// enemies: if it equals the number of enemies alive before a frame, it
    /// does so after it, whatever the time, the controls, the aim and the
    /// draws.
    pub proof fn lemma_frame_keeps_the_count(
        self,
        delta: u64,
        now: u64,
        input: Input,
        dirs: Seq<Direction>,
        draws: Seq<FormationDraw>,
    )
        requires
            self.world.active_enemies.0 == self.world.enemies.len(),
        ensures
            self.spec_update(delta, now, input, dirs, draws).world.active_enemies.0
                == self.spec_update(delta, now, input, dirs, draws).world.enemies.len(),
    {
        let played = self.world.spec_explosion_to_spawn().spec_animate_explosion(delta);
        let moved = played.spec_enemy_movement(dirs).spec_laser_movement(Faction::FromEnemy);
        let times = self.enemy_plugin.spec_ticked(delta).fire_timer.times_finished as nat;
        moved.lemma_fires_keep_enemies(times);
        moved.spec_enemy_fires(times).lemma_spawns_keep_the_count(draws);
        let enemies_done = self.enemy_plugin.spec_update(played, delta, dirs, draws);
        let players_done = self.player_plugin.spec_update(enemies_done, delta, now, input);
        assert(players_done.enemies == enemies_done.enemies);
        assert(players_done.active_enemies == enemies_done.active_enemies);
        players_done.lemma_hit_enemy_counts_once();
    }

    /// Whether `draws` may stand for chance in that frame.
    pub open spec fn spec_draws_fit(
        self,
        delta: u64,
        dirs: Seq<Direction>,
        draws: Seq<FormationDraw>,
    ) -> bool {
        self.enemy_plugin.spec_draws_fit(
            self.world.spec_explosion_to_spawn().spec_animate_explosion(delta),
            delta,
            dirs,
            draws,
        )
    }
}

impl Invaders {
    /// The game's view is well formed.
    pub open spec fn wf(self) -> bool {
        self@.wf()
    }

    /// Decides [`Invaders::wf`].
    pub fn is_wf(&self) -> (b: bool)
        ensures
            b == self.wf(),
    {
        self.world.is_wf() && self.enemy_plugin.is_wf() && self.player_plugin.is_wf()
    }

    /// Runs one frame of `delta` microseconds that ends at time `now`,
    /// the `i`-th enemy aimed by `dirs[i]`: see
    /// [`InvadersView::spec_update`]. What the spawner draws at random is
    /// some sequence of draws that fit.
    pub fn update(&mut self, delta: u64, now: u64, input: &Input, dirs: &Vec<Direction>)
        requires
            old(self).wf(),
            old(self).world@.can_run_spawner(),
            dirs@.len() == old(self).world.enemies@.len(),
            forall|i: int| 0 <= i < dirs@.len() ==> (#[trigger] dirs@[i]).wf(),
        ensures
            exists|draws: Seq<FormationDraw>|
                {
                    &&& old(self)@.spec_draws_fit(delta, dirs@, draws)
                    &&& final(self)@ == #[trigger] old(self)@.spec_update(
                        delta,
                        now,
                        *input,
                        dirs@,
                        draws,
                    )
                },
            final(self).wf(),
            final(self).world.active_enemies.0 == final(self).world.enemies@.len(),
    {
        explosion_to_spawn(&mut self.world);
        animate_explosion(&mut self.world, delta);
        let ghost played = self.world@;
        self.enemy_plugin.update(&mut self.world, delta, dirs);
        let ghost draws = choose|draws: Seq<FormationDraw>|
            {
                &&& old(self).enemy_plugin.spec_draws_fit(played, delta, dirs@, draws)
                &&& self.world@ == #[trigger] old(self).enemy_plugin.spec_update(
                    played,
                    delta,
                    dirs@,
                    draws,
                )
            };
        self.player_plugin.update(&mut self.world, delta, now, input);
        player_laser_hit_enemy(&mut self.world);
        enemy_laser_hit_player(&mut self.world, now);
        assert(self@ == old(self)@.spec_update(delta, now, *input, dirs@, draws));
    }
}

/// A new game on a playfield of the given size at time `now`: an empty
/// world that both plugins have set up, so that the player is there.
pub fn invaders_app(win_size: WinSize, sprite_infos: SpriteInfos, now: u64) -> (app: Invaders)
    requires
        win_size.wf(),
        sprite_infos.wf(),
    ensures
        app@ == InvadersView::spec_new(win_size, sprite_infos, now),
        app.wf(),
{
    let mut world = World::new(win_size, sprite_infos);
    let enemy_plugin = EnemyPlugin::new();
    let player_plugin = PlayerPlugin::new();
    player_plugin.build(&mut world, now);
    enemy_plugin.build(&mut world);
    Invaders { world, enemy_plugin, player_plugin }
}

} // verus!
