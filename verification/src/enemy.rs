//! The enemy systems: spawning, firing, the flight of enemy projectiles and
//! the motion of the enemies along their formations.

use vstd::prelude::*;
use crate::angle::Angle;
use crate::angle::Direction;
use crate::entity::Enemy;
use crate::entity::Faction;
use crate::entity::Laser;
use crate::entity::Speed;
use crate::entity::Transform;
use crate::formation::Formation;
use crate::formation::FormationDraw;
use crate::formation::FormationMaker;
use crate::laser::move_lasers;
use crate::rules::DEFAULT_SPEED;
use crate::rules::ENEMY_FIRE_PERIOD;
use crate::rules::ENEMY_MUZZLE_DROP;
use crate::rules::ENEMY_SPAWN_PERIOD;
use crate::rules::MAX_ENEMIES;
use crate::timer::Timer;
use crate::units::Vec2;
use crate::units::SCALE;
use crate::world::ActiveEnemies;
use crate::world::World;
use crate::world::WorldView;

verus! {

impl Enemy {
    /// A new enemy of `formation`: at the formation's start, at the scale
    /// ships are drawn at, with the default speed.
    pub open spec fn spec_at_start(formation: Formation) -> Enemy {
        Enemy {
            transform: Transform { translation: formation.start, scale: Vec2 { x: SCALE, y: SCALE } },
            speed: Speed(DEFAULT_SPEED),
            formation,
        }
    }

    /// Computes [`Enemy::spec_at_start`].
    pub fn at_start(formation: Formation) -> (e: Enemy)
        ensures
            e == Enemy::spec_at_start(formation),
            formation.wf() ==> e.wf(),
    {
        Enemy {
            transform: Transform { translation: formation.start, scale: Vec2 { x: SCALE, y: SCALE } },
            speed: Speed(DEFAULT_SPEED),
            formation,
        }
    }

    /// The projectile the enemy fires: a little below it, flipped to point
    /// down, with the default speed.
    pub open spec fn spec_laser(self) -> Laser {
        Laser {
            transform: Transform {
                translation: Vec2 {
                    x: self.transform.translation.x,
                    y: (self.transform.translation.y - ENEMY_MUZZLE_DROP) as i64,
                },
                scale: Vec2 { x: SCALE, y: (-SCALE) as i64 },
            },
            speed: Speed(DEFAULT_SPEED),
            faction: Faction::FromEnemy,
        }
    }

    /// Computes [`Enemy::spec_laser`].
    pub fn laser(&self) -> (l: Laser)
        requires
            self.wf(),
        ensures
            l == self.spec_laser(),
            l.wf(),
    {
        Laser {
            transform: Transform {
                translation: Vec2 {
                    x: self.transform.translation.x,
                    y: self.transform.translation.y - ENEMY_MUZZLE_DROP,
                },
                scale: Vec2 { x: SCALE, y: -SCALE },
            },
            speed: Speed(DEFAULT_SPEED),
            faction: Faction::FromEnemy,
        }
    }
}

impl WorldView {
    /// Whether the spawner can run: if it is to spawn, the formation maker
    /// has a group number left for a new formation, and if a new one is
    /// due the playfield is well formed and has room for it. These are the
    /// limits of the machine and of the random number generator, which
    /// cannot draw from an empty range.
    pub open spec fn can_spawn_enemy(self) -> bool {
        self.active_enemies.0 < MAX_ENEMIES ==> {
            &&& self.formation_maker.can_make()
            &&& self.formation_maker.spec_is_full() ==> self.win_size.wf()
                && self.win_size.has_room()
        }
    }

    /// The world after the spawner has run, where `draw` holds what a new
    /// formation would take from chance. While fewer than [`MAX_ENEMIES`]
    /// are alive, the maker hands out a formation, an enemy of it appears at
    /// its start, and the counter goes up by one. Otherwise nothing
    /// changes.
    pub open spec fn spec_enemy_spawn(self, draw: FormationDraw) -> WorldView {
        if self.active_enemies.0 < MAX_ENEMIES {
            WorldView {
                active_enemies: ActiveEnemies((self.active_enemies.0 + 1) as u32),
                formation_maker: self.formation_maker.spec_after_make(self.win_size, draw),
                enemies: self.enemies.push(
                    Enemy::spec_at_start(self.formation_maker.spec_made(self.win_size, draw)),
                ),
                ..self
            }
        } else {
            self
        }
    }

    /// The spawner respects the cap: it never takes the number of enemies
    /// above [`MAX_ENEMIES`], and at the cap it changes nothing.
    pub proof fn lemma_spawner_respects_cap(self, draw: FormationDraw)
        requires
            self.active_enemies.0 == self.enemies.len(),
        ensures
            self.enemies.len() <= MAX_ENEMIES ==> self.spec_enemy_spawn(draw).enemies.len()
                <= MAX_ENEMIES,
            self.enemies.len() >= MAX_ENEMIES ==> self.spec_enemy_spawn(draw) == self,
            self.spec_enemy_spawn(draw).active_enemies.0 == self.spec_enemy_spawn(
                draw,
            ).enemies.len(),
    {
    }

    /// Firing changes neither the enemies nor their counter, however often
    /// the enemies fire.
    pub proof fn lemma_fires_keep_enemies(self, times: nat)
        ensures
            self.spec_enemy_fires(times).enemies == self.enemies,
            self.spec_enemy_fires(times).active_enemies == self.active_enemies,
        decreases times,
    {
        if times > 0 {
            self.lemma_fires_keep_enemies((times - 1) as nat);
        }
    }

    /// However often the spawner runs, the counter goes on counting the
    /// enemies.
    pub proof fn lemma_spawns_keep_the_count(self, draws: Seq<FormationDraw>)
        requires
            self.active_enemies.0 == self.enemies.len(),
        ensures
            self.spec_enemy_spawns(draws).active_enemies.0 == self.spec_enemy_spawns(
                draws,
            ).enemies.len(),
        decreases draws.len(),
    {
        if draws.len() > 0 {
            self.lemma_spawns_keep_the_count(draws.drop_last());
            self.spec_enemy_spawns(draws.drop_last()).lemma_spawner_respects_cap(draws.last());
        }
    }

    /// The world with a formation maker that has handed out nothing.
    pub open spec fn spec_with_new_maker(self) -> WorldView {
        WorldView {
            formation_maker: FormationMaker {
                group_seq: 0,
                current_formation: None,
                current_formation_members: 0,
            },
            ..self
        }
    }

    /// Whether `draw` may stand for chance when the spawner runs: if a new
    /// formation is due, its values lie in the ranges they are drawn from.
    pub open spec fn spec_draw_fits(self, draw: FormationDraw) -> bool {
        self.active_enemies.0 < MAX_ENEMIES && self.formation_maker.spec_is_full()
            ==> draw.in_range(self.win_size)
    }

    /// The world after the spawner has run once for each of `draws`, in
    /// their order.
    pub open spec fn spec_enemy_spawns(self, draws: Seq<FormationDraw>) -> WorldView
        decreases draws.len(),
    {
        if draws.len() == 0 {
            self
        } else {
            self.spec_enemy_spawns(draws.drop_last()).spec_enemy_spawn(draws.last())
        }
    }

    /// Whether each of `draws` may stand for chance in the run of the
    /// spawner that it is used in.
    pub open spec fn spec_draws_fit(self, draws: Seq<FormationDraw>) -> bool
        decreases draws.len(),
    {
        draws.len() == 0 || (self.spec_draws_fit(draws.drop_last()) && self.spec_enemy_spawns(
            draws.drop_last(),
        ).spec_draw_fits(draws.last()))
    }

    /// Whether the spawner can run any number of times: the playfield has
    /// room for formations, and there are group numbers left for as many
    /// enemies as can be alive.
    pub open spec fn can_run_spawner(self) -> bool {
        self.win_size.has_room() && self.formation_maker.group_seq <= u32::MAX - MAX_ENEMIES
    }

    /// The world after the enemies have fired `times` times.
    pub open spec fn spec_enemy_fires(self, times: nat) -> WorldView
        decreases times,
    {
        if times == 0 {
            self
        } else {
            self.spec_enemy_fires((times - 1) as nat).spec_enemy_fire()
        }
    }

    /// The world after the enemies have fired: each enemy has added one
    /// projectile, in the order of the enemies.
    pub open spec fn spec_enemy_fire(self) -> WorldView {
        WorldView {
            lasers: self.lasers + self.enemies.map_values(|e: Enemy| e.spec_laser()),
            ..self
        }
    }

    /// The world after every enemy has taken one step, the `i`-th aimed by
    /// `dirs[i]`.
    pub open spec fn spec_enemy_movement(self, dirs: Seq<Direction>) -> WorldView {
        WorldView {
            enemies: Seq::new(self.enemies.len(), |i: int| self.enemies[i].spec_moved(dirs[i])),
            ..self
        }
    }

    /// The candidate angle of each enemy, in the order of the enemies.
    pub open spec fn spec_candidate_angles(self) -> Seq<Angle> {
        self.enemies.map_values(|e: Enemy| e.spec_candidate_angle())
    }
}

impl World {
    /// Decides [`WorldView::can_run_spawner`].
    pub fn check_can_run_spawner(&self) -> (b: bool)
        requires
            self.wf(),
        ensures
            b == self@.can_run_spawner(),
    {
        self.win_size.is_roomy() && self.formation_maker.group_seq <= u32::MAX - MAX_ENEMIES
    }

    /// Decides [`WorldView::can_spawn_enemy`].
    pub fn check_can_spawn_enemy(&self) -> (b: bool)
        ensures
            b == self@.can_spawn_enemy(),
    {
        if self.active_enemies.0 < MAX_ENEMIES {
            self.formation_maker.check_can_make() && (!self.formation_maker.is_full() || (
            self.win_size.is_wf() && self.win_size.is_roomy()))
        } else {
            true
        }
    }
}

/// The enemy systems with their cadences: the spawner and the enemies'
/// fire each run on a timer of their own, the motion systems run in every
/// frame.
#[derive(Clone, Copy, Debug, PartialEq, Eq)]
pub struct EnemyPlugin {
    pub spawn_timer: Timer,
    pub fire_timer: Timer,
}

impl EnemyPlugin {
    /// Both timers are well formed.
    pub open spec fn wf(self) -> bool {
        self.spawn_timer.wf() && self.fire_timer.wf()
    }

    /// Decides [`EnemyPlugin::wf`].
    pub fn is_wf(&self) -> (b: bool)
        ensures
            b == self.wf(),
    {
        self.spawn_timer.is_wf() && self.fire_timer.is_wf()
    }

    /// The plugin with its timers at rest: the spawner runs every
    /// [`ENEMY_SPAWN_PERIOD`], the enemies fire every
    /// [`ENEMY_FIRE_PERIOD`].
    pub open spec fn spec_new() -> EnemyPlugin {
        EnemyPlugin {
            spawn_timer: Timer { duration: ENEMY_SPAWN_PERIOD, elapsed: 0, times_finished: 0 },
            fire_timer: Timer { duration: ENEMY_FIRE_PERIOD, elapsed: 0, times_finished: 0 },
        }
    }

    /// Computes [`EnemyPlugin::spec_new`].
    pub fn new() -> (p: EnemyPlugin)
        ensures
            p == EnemyPlugin::spec_new(),
            p.wf(),
    {
        EnemyPlugin {
            spawn_timer: Timer::new(ENEMY_SPAWN_PERIOD),
            fire_timer: Timer::new(ENEMY_FIRE_PERIOD),
        }
    }

    /// Sets `world` up for the enemy systems: it gets a formation maker
    /// that has handed out nothing.
    pub fn build(&self, world: &mut World)
        requires
            old(world).wf(),
        ensures
            final(world)@ == old(world)@.spec_with_new_maker(),
            final(world).wf(),
    {
        world.formation_maker = FormationMaker::new();
    }

    /// The plugin after a frame of `delta` microseconds.
    pub open spec fn spec_ticked(self, delta: u64) -> EnemyPlugin {
        EnemyPlugin {
            spawn_timer: self.spawn_timer.spec_tick(delta),
            fire_timer: self.fire_timer.spec_tick(delta),
        }
    }

    /// What one frame of `delta` microseconds makes of `world`, where
    /// `dirs` aims the enemies and `draws` stands for chance. The enemies
    /// move, then their projectiles; then the enemies fire once for each
    /// period that their timer completed in the frame, and the spawner
    /// runs once for each period that its timer completed, with the draws
    /// in their order.
    pub open spec fn spec_update(
        self,
        world: WorldView,
        delta: u64,
        dirs: Seq<Direction>,
        draws: Seq<FormationDraw>,
    ) -> WorldView {
        world.spec_enemy_movement(dirs).spec_laser_movement(Faction::FromEnemy).spec_enemy_fires(
            self.spec_ticked(delta).fire_timer.times_finished as nat,
        ).spec_enemy_spawns(draws)
    }

    /// Whether `draws` may stand for chance in a frame of `delta`
    /// microseconds: there is one for each run of the spawner, and each
    /// fits the run it is used in.
    pub open spec fn spec_draws_fit(
        self,
        world: WorldView,
        delta: u64,
        dirs: Seq<Direction>,
        draws: Seq<FormationDraw>,
    ) -> bool {
        &&& draws.len() == self.spec_ticked(delta).spawn_timer.times_finished
        &&& world.spec_enemy_movement(dirs).spec_laser_movement(
            Faction::FromEnemy,
        ).spec_enemy_fires(
            self.spec_ticked(delta).fire_timer.times_finished as nat,
        ).spec_draws_fit(draws)
    }

    /// Runs the enemy systems for a frame of `delta` microseconds, the
    /// `i`-th enemy aimed by `dirs[i]`: see [`EnemyPlugin::spec_update`].
    /// What the spawner draws at random is some sequence of draws that
    /// fit.
    pub fn update(&mut self, world: &mut World, delta: u64, dirs: &Vec<Direction>)
        requires
            old(self).wf(),
            old(world).wf(),
            old(world)@.can_run_spawner(),
            dirs@.len() == old(world).enemies@.len(),
            forall|i: int| 0 <= i < dirs@.len() ==> (#[trigger] dirs@[i]).wf(),
        ensures
            *final(self) == old(self).spec_ticked(delta),
            exists|draws: Seq<FormationDraw>|
                {
                    &&& old(self).spec_draws_fit(old(world)@, delta, dirs@, draws)
                    &&& final(world)@ == #[trigger] old(self).spec_update(
                        old(world)@,
                        delta,
                        dirs@,
                        draws,
                    )
                },
            final(self).wf(),
            final(world).wf(),
    {
        enemy_movement(world, dirs);
        laser_movement(world);
        self.fire_timer.tick(delta);
        self.spawn_timer.tick(delta);
        let ghost moved = world@;
        let fires: u64 = self.fire_timer.times_finished;
        let mut fired: u64 = 0;
        while fired < fires
            invariant
                fired <= fires,
                world.wf(),
                world@ == moved.spec_enemy_fires(fired as nat),
                world@.can_run_spawner(),
            decreases fires - fired,
        {
            enemy_fire(world);
            fired += 1;
        }
        let ghost loaded = world@;
        let ghost mut draws: Seq<FormationDraw> = Seq::empty();
        let spawns: u64 = self.spawn_timer.times_finished;
        let mut spawned: u64 = 0;
        while spawned < spawns
            invariant
                spawned <= spawns,
                world.wf(),
                loaded.can_run_spawner(),
                draws.len() == spawned,
                loaded.spec_draws_fit(draws),
                world@ == loaded.spec_enemy_spawns(draws),
                world.win_size == loaded.win_size,
                world.formation_maker.group_seq - loaded.formation_maker.group_seq
                    <= world.active_enemies.0 - loaded.active_enemies.0,
                world.active_enemies.0 >= loaded.active_enemies.0,
                world.active_enemies.0 <= MAX_ENEMIES || world.active_enemies.0
                    == loaded.active_enemies.0,
            decreases spawns - spawned,
        {
            let ghost before = world@;
            enemy_spawn(world);
            proof {
                let draw = choose|draw: FormationDraw|
                    {
                        &&& before.spec_draw_fits(draw)
                        &&& world@ == #[trigger] before.spec_enemy_spawn(draw)
                    };
                assert(draws.push(draw).drop_last() =~= draws);
                draws = draws.push(draw);
            }
            spawned += 1;
        }
        assert(world@ == old(self).spec_update(old(world)@, delta, dirs@, draws));
    }
}

/// Runs the spawner with `draw` standing for chance: see
/// [`WorldView::spec_enemy_spawn`]. Below the cap exactly one enemy is
/// added and none removed, and the counter goes up by one; at the cap
/// nothing changes. A counter that counted the enemies still does.
pub fn enemy_spawn_from(world: &mut World, draw: &FormationDraw)
    requires
        old(world)@.can_spawn_enemy(),
        old(world)@.spec_draw_fits(*draw),
    ensures
        final(world)@ == old(world)@.spec_enemy_spawn(*draw),
        old(world).active_enemies.0 < MAX_ENEMIES ==> {
            &&& final(world).active_enemies.0 == old(world).active_enemies.0 + 1
            &&& final(world).enemies@.len() == old(world).enemies@.len() + 1
            &&& final(world).enemies@.drop_last() == old(world).enemies@
        },
        old(world).active_enemies.0 >= MAX_ENEMIES ==> final(world)@ == old(world)@,
        old(world).active_enemies.0 == old(world).enemies@.len()
            ==> final(world).active_enemies.0 == final(world).enemies@.len(),
        old(world).wf() ==> final(world).wf(),
{
    if world.active_enemies.0 < MAX_ENEMIES {
        let formation = world.formation_maker.make_from(&world.win_size, draw);
        world.enemies.push(Enemy::at_start(formation));
        world.active_enemies.0 += 1;
        assert(world.enemies@.drop_last() =~= old(world).enemies@);
    }
}

/// Runs the spawner. While fewer than [`MAX_ENEMIES`] are alive it asks the
/// formation maker for a formation, which may draw a new one at random,
/// puts an enemy of it at its start and counts it: exactly one enemy is
/// added and none removed, and the counter goes up by one. Otherwise it
/// does nothing. A counter that counted the enemies still does.
pub fn enemy_spawn(world: &mut World)
    requires
        old(world)@.can_spawn_enemy(),
    ensures
        exists|draw: FormationDraw|
            {
                &&& old(world)@.spec_draw_fits(draw)
                &&& final(world)@ == #[trigger] old(world)@.spec_enemy_spawn(draw)
            },
        old(world).active_enemies.0 < MAX_ENEMIES ==> {
            &&& final(world).active_enemies.0 == old(world).active_enemies.0 + 1
            &&& final(world).enemies@.len() == old(world).enemies@.len() + 1
            &&& final(world).enemies@.drop_last() == old(world).enemies@
        },
        old(world).active_enemies.0 >= MAX_ENEMIES ==> final(world)@ == old(world)@,
        old(world).active_enemies.0 == old(world).enemies@.len()
            ==> final(world).active_enemies.0 == final(world).enemies@.len(),
        old(world).wf() ==> final(world).wf(),
{
    if world.active_enemies.0 < MAX_ENEMIES {
        let ghost maker = world.formation_maker;
        let formation = world.formation_maker.make(&world.win_size);
        world.enemies.push(Enemy::at_start(formation));
        world.active_enemies.0 += 1;
        proof {
            let draw = choose|draw: FormationDraw|
                {
                    &&& maker.spec_is_full() ==> draw.in_range(world.win_size)
                    &&& formation == #[trigger] maker.spec_made(world.win_size, draw)
                    &&& world.formation_maker == maker.spec_after_make(world.win_size, draw)
                };
            assert(world@ == old(world)@.spec_enemy_spawn(draw));
            assert(world.enemies@.drop_last() =~= old(world).enemies@);
        }
    } else {
        let ghost any = FormationDraw {
            right: false,
            start_y: 0,
            offset: Vec2 { x: 0, y: 0 },
            radius_x: 0,
        };
        assert(world@ == old(world)@.spec_enemy_spawn(any));
    }
}

/// Lets every enemy fire one projectile: see
/// [`WorldView::spec_enemy_fire`].
pub fn enemy_fire(world: &mut World)
    requires
        old(world).wf(),
    ensures
        final(world)@ == old(world)@.spec_enemy_fire(),
        final(world).wf(),
{
    let ghost pre = world@;
    let ghost fired = |e: Enemy| e.spec_laser();
    let mut i: usize = 0;
    while i < world.enemies.len()
        invariant
            i <= pre.enemies.len(),
            pre.wf(),
            fired == |e: Enemy| e.spec_laser(),
            world@ == (WorldView {
                lasers: pre.lasers + pre.enemies.take(i as int).map_values(fired),
                ..pre
            }),
            forall|k: int| 0 <= k < world.lasers@.len() ==> (#[trigger] world.lasers@[k]).wf(),
        decreases pre.enemies.len() - i,
    {
        let laser = world.enemies[i].laser();
        world.lasers.push(laser);
        proof {
            assert(world.lasers@ =~= pre.lasers + pre.enemies.take(i + 1).map_values(fired));
        }
        i += 1;
    }
    assert(pre.enemies.take(pre.enemies.len() as int) =~= pre.enemies);
}

/// Moves the enemies' projectiles one step down and removes those that
/// have fallen more than the margin below the playfield.
pub fn laser_movement(world: &mut World)
    requires
        old(world).wf(),
    ensures
        final(world)@ == old(world)@.spec_laser_movement(Faction::FromEnemy),
        final(world).wf(),
{
    move_lasers(world, Faction::FromEnemy)
}

/// The angle that each enemy's next step is aimed by. Whoever drives the
/// simulation evaluates these and hands their directions to
/// [`enemy_movement`].
pub fn candidate_angles(world: &World) -> (angles: Vec<Angle>)
    requires
        world.wf(),
    ensures
        angles@ == world@.spec_candidate_angles(),
        forall|i: int| 0 <= i < angles@.len() ==> (#[trigger] angles@[i]).wf(),
{
    let mut angles: Vec<Angle> = Vec::new();
    let mut i: usize = 0;
    while i < world.enemies.len()
        invariant
            i <= world.enemies@.len(),
            world.wf(),
            angles@ == world@.enemies.take(i as int).map_values(|e: Enemy| e.spec_candidate_angle()),
            forall|k: int| 0 <= k < angles@.len() ==> (#[trigger] angles@[k]).wf(),
        decreases world.enemies@.len() - i,
    {
        angles.push(world.enemies[i].candidate_angle());
        i += 1;
    }
    angles
}

/// Moves every enemy one step along its formation, the `i`-th aimed by
/// `dirs[i]`, which is to be the direction of its candidate angle: see
/// [`Enemy::spec_moved`].
pub fn enemy_movement(world: &mut World, dirs: &Vec<Direction>)
    requires
        old(world).wf(),
        dirs@.len() == old(world).enemies@.len(),
        forall|i: int| 0 <= i < dirs@.len() ==> (#[trigger] dirs@[i]).wf(),
    ensures
        final(world)@ == old(world)@.spec_enemy_movement(dirs@),
        final(world).wf(),
{
    let ghost pre = world@;
    let mut i: usize = 0;
    while i < world.enemies.len()
        invariant
            i <= pre.enemies.len(),
            pre.wf(),
            dirs@.len() == pre.enemies.len(),
            forall|k: int| 0 <= k < dirs@.len() ==> (#[trigger] dirs@[k]).wf(),
            (WorldView { enemies: pre.enemies, ..world@ }) == pre,
            world.enemies@.len() == pre.enemies.len(),
            forall|k: int|
                0 <= k < i ==> #[trigger] world.enemies@[k] == pre.enemies[k].spec_moved(dirs@[k]),
            forall|k: int| i <= k < pre.enemies.len() ==> #[trigger] world.enemies@[k] == pre.enemies[k],
            forall|k: int| 0 <= k < world.enemies@.len() ==> (#[trigger] world.enemies@[k]).wf(),
        decreases pre.enemies.len() - i,
    {
        let moved = world.enemies[i].moved(&dirs[i]);
        world.enemies.set(i, moved);
        i += 1;
    }
    assert(world.enemies@ =~= pre.spec_enemy_movement(dirs@).enemies);
}

} // verus!
