use invaders::angle::Angle;
use invaders::collision::{collide, enemy_laser_hit_player, player_laser_hit_enemy, scaled};
use invaders::entity::{Enemy, ExplosionToSpawn, Faction, Laser, Player, Speed, Transform};
use invaders::formation::Formation;
use invaders::resources::{SpriteInfos, WinSize};
use invaders::units::Vec2;
use invaders::world::{ActiveEnemies, PlayerState, World};

fn win() -> WinSize {
    WinSize { width: 598_000, height: 676_000 }
}

fn sprites() -> SpriteInfos {
    SpriteInfos {
        player: Vec2 { x: 144_000, y: 75_000 },
        player_laser: Vec2 { x: 9_000, y: 54_000 },
        enemy: Vec2 { x: 93_000, y: 84_000 },
        enemy_laser: Vec2 { x: 17_000, y: 55_000 },
        explosion_frames: 16,
    }
}

fn enemy_at(x: i64, y: i64) -> Enemy {
    Enemy {
        transform: Transform { translation: Vec2 { x, y }, scale: Vec2 { x: 500, y: 500 } },
        speed: Speed(500_000),
        formation: Formation {
            start: Vec2 { x: 598_000, y: 12_000 },
            radius: Vec2 { x: 100_000, y: 100_000 },
            offset: Vec2 { x: 0, y: 0 },
            angle: Angle { rise: 12_000, run: 598_000, turn: 0 },
            group_id: 1,
        },
    }
}

fn player_laser(x: i64, y: i64) -> Laser {
    Laser {
        transform: Transform { translation: Vec2 { x, y }, scale: Vec2 { x: 1_000, y: 1_000 } },
        speed: Speed(500_000),
        faction: Faction::FromPlayer,
    }
}

fn enemy_laser(x: i64, y: i64) -> Laser {
    Laser {
        transform: Transform { translation: Vec2 { x, y }, scale: Vec2 { x: 500, y: -500 } },
        speed: Speed(500_000),
        faction: Faction::FromEnemy,
    }
}

fn player_at(x: i64, y: i64) -> Player {
    Player {
        transform: Transform { translation: Vec2 { x, y }, scale: Vec2 { x: 500, y: 500 } },
        speed: Speed(500_000),
        ready_fire: true,
    }
}

fn world_of(enemies: Vec<Enemy>, lasers: Vec<Laser>) -> World {
    let mut world = World::new(win(), sprites());
    world.active_enemies = ActiveEnemies(enemies.len() as u32);
    world.enemies = enemies;
    world.lasers = lasers;
    world
}

#[test]
fn scaled_extents() {
    let size = Vec2 { x: 93_000, y: 84_000 };
    assert_eq!(scaled(&size, &Vec2 { x: 500, y: 500 }), Vec2 { x: 46_500, y: 42_000 });
    assert_eq!(scaled(&size, &Vec2 { x: 1_000, y: -500 }), Vec2 { x: 93_000, y: -42_000 });
    assert_eq!(scaled(&Vec2 { x: 3, y: 1_999 }, &Vec2 { x: 500, y: -1 }), Vec2 { x: 1, y: -1 });
    assert_eq!(scaled(&size, &Vec2 { x: 0, y: 0 }), Vec2 { x: 0, y: 0 });
}

#[test]
fn boxes_that_overlap_collide() {
    let a = Vec2 { x: 0, y: 0 };
    let size = Vec2 { x: 10, y: 10 };
    assert!(collide(&a, &size, &Vec2 { x: 9, y: 9 }, &size));
    assert!(collide(&a, &size, &Vec2 { x: -9, y: 9 }, &size));
    assert!(collide(&a, &size, &a, &size));
    assert!(collide(&a, &size, &Vec2 { x: 7, y: 0 }, &Vec2 { x: 5, y: 1 }));
}

#[test]
fn boxes_that_only_touch_do_not_collide() {
    let a = Vec2 { x: 0, y: 0 };
    let size = Vec2 { x: 10, y: 10 };
    assert!(!collide(&a, &size, &Vec2 { x: 10, y: 0 }, &size));
    assert!(!collide(&a, &size, &Vec2 { x: 0, y: -10 }, &size));
    assert!(!collide(&a, &size, &Vec2 { x: 11, y: 0 }, &size));
    assert!(!collide(&a, &size, &Vec2 { x: 9, y: 10 }, &size));
    assert!(!collide(&a, &Vec2 { x: 5, y: 5 }, &Vec2 { x: 5, y: 0 }, &Vec2 { x: 5, y: 5 }));
    assert!(collide(&a, &Vec2 { x: 5, y: 5 }, &Vec2 { x: 4, y: 0 }, &Vec2 { x: 5, y: 5 }));
}

#[test]
fn projectile_boxes_against_an_enemy() {
    let s = sprites();
    let e = enemy_at(0, 0);
    assert!(player_laser(27_749, 0).hits_enemy(&e, &s));
    assert!(!player_laser(27_750, 0).hits_enemy(&e, &s));
    assert!(player_laser(0, -47_999).hits_enemy(&e, &s));
    assert!(!player_laser(0, -48_000).hits_enemy(&e, &s));
    assert_eq!(enemy_laser(0, 0).extent(&s), Vec2 { x: 8_500, y: 27_500 });
    assert_eq!(player_laser(0, 0).extent(&s), Vec2 { x: 9_000, y: 54_000 });
}

#[test]
fn projectile_boxes_against_the_player() {
    let s = sprites();
    let p = player_at(0, 0);
    assert!(enemy_laser(40_249, 0).hits_player(&p, &s));
    assert!(!enemy_laser(40_250, 0).hits_player(&p, &s));
    assert!(enemy_laser(0, 32_499).hits_player(&p, &s));
    assert!(!enemy_laser(0, 32_500).hits_player(&p, &s));
}

#[test]
fn an_enemy_under_two_projectiles_goes_once() {
    let mut world = world_of(
        vec![enemy_at(0, 100_000)],
        vec![player_laser(10_000, 90_000), player_laser(-20_000, 120_000)],
    );
    player_laser_hit_enemy(&mut world);
    assert!(world.enemies.is_empty());
    assert_eq!(world.active_enemies, ActiveEnemies(0));
    assert!(world.lasers.is_empty());
    assert_eq!(world.explosions_to_spawn, vec![ExplosionToSpawn(Vec2 { x: 0, y: 100_000 })]);
    assert!(world.is_wf());
}

#[test]
fn one_projectile_takes_every_enemy_it_overlaps() {
    let mut world = world_of(
        vec![enemy_at(0, 0), enemy_at(300_000, 0), enemy_at(20_000, 10_000)],
        vec![player_laser(10_000, 0), player_laser(-200_000, -200_000)],
    );
    world.explosions_to_spawn = vec![ExplosionToSpawn(Vec2 { x: 1, y: 1 })];
    player_laser_hit_enemy(&mut world);
    assert_eq!(world.enemies, vec![enemy_at(300_000, 0)]);
    assert_eq!(world.active_enemies, ActiveEnemies(1));
    assert_eq!(world.lasers, vec![player_laser(-200_000, -200_000)]);
    assert_eq!(
        world.explosions_to_spawn,
        vec![
            ExplosionToSpawn(Vec2 { x: 1, y: 1 }),
            ExplosionToSpawn(Vec2 { x: 0, y: 0 }),
            ExplosionToSpawn(Vec2 { x: 20_000, y: 10_000 }),
        ]
    );
}

#[test]
fn requests_come_in_the_order_of_the_enemies() {
    let mut world = world_of(
        vec![enemy_at(0, 0), enemy_at(200_000, 0)],
        vec![player_laser(200_000, 0), player_laser(0, 0)],
    );
    player_laser_hit_enemy(&mut world);
    assert_eq!(
        world.explosions_to_spawn,
        vec![
            ExplosionToSpawn(Vec2 { x: 0, y: 0 }),
            ExplosionToSpawn(Vec2 { x: 200_000, y: 0 }),
        ]
    );
    assert_eq!(world.active_enemies, ActiveEnemies(0));
}

#[test]
fn enemy_projectiles_do_not_hurt_enemies() {
    let mut world = world_of(vec![enemy_at(0, 0)], vec![enemy_laser(0, 0)]);
    player_laser_hit_enemy(&mut world);
    assert_eq!(world.enemies, vec![enemy_at(0, 0)]);
    assert_eq!(world.lasers, vec![enemy_laser(0, 0)]);
    assert_eq!(world.active_enemies, ActiveEnemies(1));
    assert!(world.explosions_to_spawn.is_empty());
}

#[test]
fn a_miss_changes_nothing() {
    let mut world = world_of(
        vec![enemy_at(0, 0), enemy_at(100_000, 0)],
        vec![player_laser(50_000, 0), player_laser(0, 48_000)],
    );
    player_laser_hit_enemy(&mut world);
    assert_eq!(world.enemies.len(), 2);
    assert_eq!(world.lasers.len(), 2);
    assert_eq!(world.active_enemies, ActiveEnemies(2));
    assert!(world.explosions_to_spawn.is_empty());
}

#[test]
fn nothing_to_hold_against_anything() {
    let mut world = world_of(vec![], vec![]);
    player_laser_hit_enemy(&mut world);
    enemy_laser_hit_player(&mut world, 5);
    assert!(world.is_wf());
    assert!(world.explosions_to_spawn.is_empty());
    let mut world = world_of(vec![enemy_at(0, 0)], vec![]);
    player_laser_hit_enemy(&mut world);
    assert_eq!(world.enemies.len(), 1);
    let mut world = world_of(vec![], vec![player_laser(0, 0)]);
    player_laser_hit_enemy(&mut world);
    assert_eq!(world.lasers.len(), 1);
}

#[test]
fn every_projectile_that_overlaps_the_player_goes_with_it() {
    let mut world = world_of(
        vec![],
        vec![
            enemy_laser(200_000, 0),
            player_laser(0, -314_250),
            enemy_laser(0, -300_000),
            enemy_laser(40_250, -314_250),
            enemy_laser(10_000, -310_000),
        ],
    );
    world.player = Some(player_at(0, -314_250));
    world.player_state = PlayerState { on: true, last_shot: 0 };
    enemy_laser_hit_player(&mut world, 9_000_000);
    assert_eq!(world.player, None);
    assert_eq!(world.player_state, PlayerState { on: false, last_shot: 9_000_000 });
    assert_eq!(
        world.lasers,
        vec![enemy_laser(200_000, 0), player_laser(0, -314_250), enemy_laser(40_250, -314_250)]
    );
    assert_eq!(
        world.explosions_to_spawn,
        vec![ExplosionToSpawn(Vec2 { x: 0, y: -314_250 })]
    );
    assert!(world.is_wf());
    enemy_laser_hit_player(&mut world, 9_000_001);
    assert_eq!(world.lasers.len(), 3);
    assert_eq!(world.explosions_to_spawn.len(), 1);
    assert_eq!(world.player_state, PlayerState { on: false, last_shot: 9_000_000 });
}

#[test]
fn two_projectiles_over_the_player_both_go() {
    let mut world = world_of(vec![enemy_at(0, 0)], vec![enemy_laser(0, 0), enemy_laser(10_000, 0)]);
    world.player = Some(player_at(0, 0));
    world.player_state = PlayerState { on: true, last_shot: 0 };
    enemy_laser_hit_player(&mut world, 3);
    assert!(world.lasers.is_empty());
    assert_eq!(world.player, None);
    assert_eq!(world.player_state, PlayerState { on: false, last_shot: 3 });
    assert_eq!(world.explosions_to_spawn, vec![ExplosionToSpawn(Vec2 { x: 0, y: 0 })]);
    assert_eq!(world.enemies, vec![enemy_at(0, 0)]);
    assert_eq!(world.active_enemies, ActiveEnemies(1));
}

#[test]
fn strikes_are_the_overlaps_of_enemy_projectiles() {
    let s = sprites();
    let p = player_at(0, 0);
    assert!(enemy_laser(0, 0).strikes(&p, &s));
    assert!(!player_laser(0, 0).strikes(&p, &s));
    assert!(!enemy_laser(40_250, 0).strikes(&p, &s));
}

#[test]
fn a_player_that_is_missed_lives() {
    let mut world = world_of(vec![], vec![enemy_laser(40_250, -314_250), player_laser(0, -314_250)]);
    world.player = Some(player_at(0, -314_250));
    world.player_state = PlayerState { on: true, last_shot: 0 };
    enemy_laser_hit_player(&mut world, 1);
    assert_eq!(world.player, Some(player_at(0, -314_250)));
    assert_eq!(world.player_state, PlayerState { on: true, last_shot: 0 });
    assert_eq!(world.lasers.len(), 2);
    assert!(world.explosions_to_spawn.is_empty());
}

#[test]
fn world_checks() {
    let mut world = world_of(vec![enemy_at(0, 0)], vec![player_laser(0, 0)]);
    assert!(world.is_wf());
    world.active_enemies = ActiveEnemies(2);
    assert!(!world.is_wf());
    world.active_enemies = ActiveEnemies(1);
    world.player = Some(player_at(0, 0));
    assert!(!world.is_wf());
    world.player_state.on = true;
    assert!(world.is_wf());
    world.player = None;
    assert!(!world.is_wf());
    world.player_state.on = false;
    world.lasers.push(player_laser(2_000_000_001, 0));
    assert!(!world.is_wf());
    world.lasers.pop();
    world.enemies[0].transform.translation.x = 1_000_000_001;
    assert!(!world.is_wf());
}
