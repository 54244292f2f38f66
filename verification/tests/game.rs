use invaders::angle::Direction;
use invaders::enemy::{candidate_angles, EnemyPlugin};
use invaders::entity::{Player, Speed, Transform};
use invaders::formation::FormationMaker;
use invaders::game::{invaders_app, Invaders};
use invaders::player::PlayerPlugin;
use invaders::resources::{SpriteInfos, WinSize};
use invaders::units::Vec2;
use invaders::world::{ActiveEnemies, Input, PlayerState};

fn win() -> WinSize {
    WinSize { width: 598_000, height: 676_000 }
}

fn sprites() -> SpriteInfos {
    SpriteInfos {
        player: Vec2 { x: 144_000, y: 75_000 },
        player_laser: Vec2 { x: 9_000, y: 54_000 },
        enemy: Vec2 { x: 93_000, y: 84_000 },
        enemy_laser: Vec2 { x: 17_000, y: 55_000 },
        explosion_frames: 16,
    }
}

fn idle() -> Input {
    Input { left: false, right: false, fire: false, fire_released: false }
}

fn aims(app: &Invaders) -> Vec<Direction> {
    candidate_angles(&app.world).iter().map(|_| Direction { cos: 0, sin: 1_000_000 }).collect()
}

#[test]
fn a_new_game_has_a_player_and_nothing_else() {
    let app = invaders_app(win(), sprites(), 0);
    assert!(app.is_wf());
    assert_eq!(app.enemy_plugin, EnemyPlugin::new());
    assert_eq!(app.player_plugin, PlayerPlugin::new());
    assert_eq!(app.world.win_size, win());
    assert_eq!(app.world.sprite_infos, sprites());
    assert_eq!(app.world.active_enemies, ActiveEnemies(0));
    assert_eq!(app.world.formation_maker, FormationMaker::new());
    assert_eq!(app.world.player_state, PlayerState { on: true, last_shot: 0 });
    assert_eq!(
        app.world.player,
        Some(Player {
            transform: Transform {
                translation: Vec2 { x: 0, y: -314_250 },
                scale: Vec2 { x: 500, y: 500 }
            },
            speed: Speed(500_000),
            ready_fire: true,
        })
    );
    assert!(app.world.enemies.is_empty());
    assert!(app.world.lasers.is_empty());
    assert!(app.world.explosions_to_spawn.is_empty());
    assert!(app.world.explosions.is_empty());
}

#[test]
fn the_counter_counts_the_enemies_in_every_frame() {
    let mut app = invaders_app(win(), sprites(), 0);
    let mut now: u64 = 0;
    for frame in 0..600u32 {
        now += 16_667;
        let input = Input {
            left: frame % 7 < 3,
            right: frame % 5 < 2,
            fire: frame % 3 == 0,
            fire_released: frame % 3 == 1,
        };
        let dirs = aims(&app);
        app.update(16_667, now, &input, &dirs);
        assert_eq!(app.world.active_enemies.0 as usize, app.world.enemies.len());
        assert!(app.world.enemies.len() <= 4);
        assert_eq!(app.world.player.is_some(), app.world.player_state.on);
        assert!(app.is_wf());
    }
    assert!(!app.world.enemies.is_empty());
}

#[test]
fn a_frame_runs_the_systems_in_order() {
    let mut app = invaders_app(win(), sprites(), 0);
    app.update(1_000_000, 1_000_000, &Input { fire: true, ..idle() }, &vec![]);
    assert_eq!(app.world.enemies.len(), 1);
    assert_eq!(app.world.active_enemies, ActiveEnemies(1));
    assert_eq!(app.world.lasers.len(), 2);
    assert_eq!(app.world.lasers[0].transform.translation, Vec2 { x: 31_000, y: -286_917 });
    assert_eq!(app.world.lasers[1].transform.translation, Vec2 { x: -31_000, y: -286_917 });
    assert_eq!(app.world.player.unwrap().ready_fire, false);
    assert_eq!(app.enemy_plugin.spawn_timer.times_finished, 1);
    assert_eq!(app.enemy_plugin.fire_timer.elapsed, 150_000);
    assert_eq!(app.player_plugin.spawn_timer.times_finished, 2);
}

#[test]
fn a_hit_leaves_an_explosion_that_plays_in_the_next_frames() {
    let mut app = invaders_app(win(), sprites(), 0);
    app.update(1_000_000, 1_000_000, &idle(), &vec![]);
    let mut target = app.world.enemies[0];
    target.transform.translation = Vec2 { x: 31_000, y: -200_000 };
    app.world.enemies[0] = target;
    let dirs = aims(&app);
    app.update(10_000, 1_010_000, &Input { fire: true, ..idle() }, &dirs);
    assert_eq!(app.world.lasers.len(), 2);
    assert_eq!(app.world.enemies.len(), 1);
    let mut frames = 0;
    while !app.world.enemies.is_empty() {
        let dirs = vec![Direction { cos: 0, sin: 0 }];
        let mut held = app.world.enemies[0];
        held.transform.translation = Vec2 { x: 31_000, y: -200_000 };
        held.formation.offset = Vec2 { x: 31_000, y: -200_000 };
        app.world.enemies[0] = held;
        app.update(10_000, 1_020_000 + frames * 10_000, &idle(), &dirs);
        frames += 1;
        assert!(frames < 20);
    }
    assert_eq!(app.world.active_enemies, ActiveEnemies(0));
    assert_eq!(app.world.lasers.len(), 1);
    assert_eq!(app.world.explosions_to_spawn.len(), 1);
    assert_eq!(app.world.explosions_to_spawn[0].0, Vec2 { x: 31_000, y: -200_000 });
    assert!(app.world.explosions.is_empty());
    app.update(10_000, 2_000_000, &idle(), &vec![]);
    assert!(app.world.explosions_to_spawn.is_empty());
    assert_eq!(app.world.explosions.len(), 1);
    assert_eq!(app.world.explosions[0].index, 0);
    app.update(10_000, 2_010_000, &idle(), &vec![]);
    assert_eq!(app.world.explosions[0].index, 1);
    app.update(300_000, 2_310_000, &idle(), &vec![]);
    assert!(app.world.explosions.is_empty());
}
