use invaders::entity::{Faction, Laser, Player, Speed, Transform};
use invaders::player::{laser_movement, player_fire, player_movement, player_spawn, PlayerPlugin};
use invaders::resources::{SpriteInfos, WinSize};
use invaders::timer::Timer;
use invaders::units::Vec2;
use invaders::world::{Input, PlayerState, World};

fn win() -> WinSize {
    WinSize { width: 598_000, height: 676_000 }
}

fn sprites() -> SpriteInfos {
    SpriteInfos {
        player: Vec2 { x: 144_000, y: 75_000 },
        player_laser: Vec2 { x: 9_000, y: 54_000 },
        enemy: Vec2 { x: 93_000, y: 84_000 },
        enemy_laser: Vec2 { x: 17_000, y: 55_000 },
        explosion_frames: 16,
    }
}

fn idle() -> Input {
    Input { left: false, right: false, fire: false, fire_released: false }
}

fn player_at(x: i64, y: i64) -> Player {
    Player {
        transform: Transform { translation: Vec2 { x, y }, scale: Vec2 { x: 500, y: 500 } },
        speed: Speed(500_000),
        ready_fire: true,
    }
}

fn world_with_player(x: i64, y: i64) -> World {
    let mut world = World::new(win(), sprites());
    world.player = Some(player_at(x, y));
    world.player_state = PlayerState { on: true, last_shot: 0 };
    world
}

fn player_laser(x: i64, y: i64) -> Laser {
    Laser {
        transform: Transform { translation: Vec2 { x, y }, scale: Vec2 { x: 1_000, y: 1_000 } },
        speed: Speed(500_000),
        faction: Faction::FromPlayer,
    }
}

#[test]
fn player_state_starts_dead_and_never_shot() {
    assert_eq!(PlayerState::default(), PlayerState { on: false, last_shot: 0 });
}

#[test]
fn player_state_records_shot_and_spawn() {
    let mut state = PlayerState::default();
    state.spawned();
    assert_eq!(state, PlayerState { on: true, last_shot: 0 });
    state.shot(7_500_000);
    assert_eq!(state, PlayerState { on: false, last_shot: 7_500_000 });
    state.spawned();
    assert_eq!(state, PlayerState { on: true, last_shot: 0 });
}

#[test]
fn respawn_rule() {
    let never = PlayerState { on: false, last_shot: 0 };
    assert!(never.respawns(0));
    assert!(never.respawns(u64::MAX));
    let shot = PlayerState { on: false, last_shot: 5_000_000 };
    assert!(shot.respawns(5_000_000));
    assert!(shot.respawns(6_999_999));
    assert!(!shot.respawns(7_000_000));
    assert!(!shot.respawns(9_000_000));
    assert!(shot.respawns(1_000_000));
    let alive = PlayerState { on: true, last_shot: 0 };
    assert!(!alive.respawns(0));
    let late = PlayerState { on: false, last_shot: u64::MAX };
    assert!(late.respawns(u64::MAX));
}

#[test]
fn a_player_appears_above_the_bottom_edge() {
    let mut world = World::new(win(), sprites());
    player_spawn(&mut world, 0);
    assert_eq!(world.player, Some(player_at(0, -314_250)));
    assert_eq!(world.player_state, PlayerState { on: true, last_shot: 0 });
    assert!(world.is_wf());
    let before = world.player;
    player_spawn(&mut world, 123);
    assert_eq!(world.player, before);
}

#[test]
fn a_player_shot_down_reappears_only_within_the_delay() {
    let mut world = World::new(win(), sprites());
    world.player_state = PlayerState { on: false, last_shot: 5_000_000 };
    player_spawn(&mut world, 7_000_000);
    assert_eq!(world.player, None);
    assert_eq!(world.player_state, PlayerState { on: false, last_shot: 5_000_000 });
    player_spawn(&mut world, 6_500_000);
    assert_eq!(world.player, Some(player_at(0, -314_250)));
    assert_eq!(world.player_state, PlayerState { on: true, last_shot: 0 });
}

#[test]
fn steering_moves_by_one_step() {
    let mut world = world_with_player(0, -314_250);
    player_movement(&mut world, &Input { right: true, ..idle() });
    assert_eq!(world.player, Some(player_at(8_333, -314_250)));
    player_movement(&mut world, &Input { left: true, ..idle() });
    player_movement(&mut world, &Input { left: true, ..idle() });
    assert_eq!(world.player, Some(player_at(-8_333, -314_250)));
    player_movement(&mut world, &idle());
    assert_eq!(world.player, Some(player_at(-8_333, -314_250)));
}

#[test]
fn left_wins_over_right() {
    let mut world = world_with_player(0, 0);
    player_movement(&mut world, &Input { left: true, right: true, ..idle() });
    assert_eq!(world.player, Some(player_at(-8_333, 0)));
}

#[test]
fn steering_stops_at_the_end_of_space() {
    let mut world = world_with_player(999_999_000, 0);
    player_movement(&mut world, &Input { right: true, ..idle() });
    assert_eq!(world.player, Some(player_at(1_000_000_000, 0)));
    let mut world = world_with_player(-1_000_000_000, 0);
    player_movement(&mut world, &Input { left: true, ..idle() });
    assert_eq!(world.player, Some(player_at(-1_000_000_000, 0)));
}

#[test]
fn without_a_player_the_controls_do_nothing() {
    let mut world = World::new(win(), sprites());
    let all = Input { left: true, right: true, fire: true, fire_released: true };
    player_movement(&mut world, &all);
    player_fire(&mut world, &all);
    assert_eq!(world.player, None);
    assert!(world.lasers.is_empty());
}

#[test]
fn firing_spawns_two_projectiles_and_waits_for_a_release() {
    let mut world = world_with_player(10_000, -314_250);
    let held = Input { fire: true, ..idle() };
    player_fire(&mut world, &held);
    assert_eq!(
        world.lasers,
        vec![player_laser(41_000, -295_250), player_laser(-21_000, -295_250)]
    );
    assert_eq!(world.player.unwrap().ready_fire, false);
    for _ in 0..3 {
        player_fire(&mut world, &held);
    }
    assert_eq!(world.lasers.len(), 2);
    assert_eq!(world.player.unwrap().ready_fire, false);
    player_fire(&mut world, &Input { fire_released: true, ..idle() });
    assert_eq!(world.lasers.len(), 2);
    assert_eq!(world.player.unwrap().ready_fire, true);
    player_fire(&mut world, &held);
    assert_eq!(world.lasers.len(), 4);
    assert_eq!(world.player.unwrap().ready_fire, false);
}

#[test]
fn firing_and_releasing_in_one_frame_leaves_the_player_ready() {
    let mut world = world_with_player(0, 0);
    player_fire(&mut world, &Input { fire: true, fire_released: true, ..idle() });
    assert_eq!(world.lasers.len(), 2);
    assert_eq!(world.player.unwrap().ready_fire, true);
}

#[test]
fn a_player_not_ready_does_not_fire() {
    let mut world = world_with_player(0, 0);
    world.player = Some(Player { ready_fire: false, ..player_at(0, 0) });
    player_fire(&mut world, &Input { fire: true, ..idle() });
    assert!(world.lasers.is_empty());
    assert_eq!(world.player.unwrap().ready_fire, false);
}

#[test]
fn player_projectiles_rise_and_leave_at_the_top_edge() {
    let mut world = World::new(win(), sprites());
    let enemy_laser = Laser { faction: Faction::FromEnemy, ..player_laser(3, 400_000) };
    world.lasers = vec![
        player_laser(0, 0),
        player_laser(1, 329_666),
        player_laser(2, 329_667),
        enemy_laser,
        player_laser(4, 329_668),
        player_laser(5, 700_000),
    ];
    laser_movement(&mut world);
    assert_eq!(
        world.lasers,
        vec![player_laser(0, 8_333), player_laser(1, 337_999), enemy_laser]
    );
}

#[test]
fn a_player_projectile_that_crosses_the_top_edge_goes_in_that_step() {
    let mut world = World::new(win(), sprites());
    let slow = Laser { speed: Speed(60_000), ..player_laser(0, 337_500) };
    let below = Laser { speed: Speed(60_000), ..player_laser(0, 336_999) };
    world.lasers = vec![slow, below];
    laser_movement(&mut world);
    assert_eq!(
        world.lasers,
        vec![Laser { speed: Speed(60_000), ..player_laser(0, 337_999) }]
    );
}

#[test]
fn player_plugin_starts_at_rest() {
    let plugin = PlayerPlugin::new();
    assert_eq!(
        plugin,
        PlayerPlugin { spawn_timer: Timer { duration: 500_000, elapsed: 0, times_finished: 0 } }
    );
    assert!(plugin.is_wf());
}

#[test]
fn player_plugin_build_spawns_the_player() {
    let mut world = World::new(win(), sprites());
    world.player_state = PlayerState { on: false, last_shot: 1 };
    PlayerPlugin::new().build(&mut world, 10_000_000);
    assert_eq!(world.player, Some(player_at(0, -314_250)));
    assert_eq!(world.player_state, PlayerState { on: true, last_shot: 0 });
}

#[test]
fn player_plugin_checks_for_respawn_at_its_cadence() {
    let mut world = World::new(win(), sprites());
    let mut plugin = PlayerPlugin::new();
    plugin.update(&mut world, 499_999, 499_999, &idle());
    assert_eq!(world.player, None);
    plugin.update(&mut world, 1, 500_000, &idle());
    assert_eq!(world.player, Some(player_at(0, -314_250)));
    assert_eq!(plugin.spawn_timer, Timer { duration: 500_000, elapsed: 0, times_finished: 1 });
}

#[test]
fn player_plugin_steers_fires_and_moves_projectiles() {
    let mut world = world_with_player(0, -314_250);
    let mut plugin = PlayerPlugin::new();
    plugin.update(&mut world, 16_000, 16_000, &Input { right: true, fire: true, ..idle() });
    assert_eq!(
        world.player,
        Some(Player { ready_fire: false, ..player_at(8_333, -314_250) })
    );
    assert_eq!(
        world.lasers,
        vec![player_laser(39_333, -286_917), player_laser(-22_667, -286_917)]
    );
}
