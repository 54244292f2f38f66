use invaders::entity::{Explosion, ExplosionToSpawn};
use invaders::explosion::{animate_explosion, explosion_to_spawn};
use invaders::resources::{SpriteInfos, WinSize};
use invaders::timer::Timer;
use invaders::units::Vec2;
use invaders::world::World;

fn world(frames: usize) -> World {
    World::new(
        WinSize { width: 598_000, height: 676_000 },
        SpriteInfos {
            player: Vec2 { x: 144_000, y: 75_000 },
            player_laser: Vec2 { x: 9_000, y: 54_000 },
            enemy: Vec2 { x: 93_000, y: 84_000 },
            enemy_laser: Vec2 { x: 17_000, y: 55_000 },
            explosion_frames: frames,
        },
    )
}

fn explosion(x: i64, elapsed: u64, times_finished: u64, index: usize) -> Explosion {
    Explosion {
        translation: Vec2 { x, y: 0 },
        timer: Timer { duration: 20_000, elapsed, times_finished },
        index,
    }
}

#[test]
fn timer_counts_whole_periods() {
    let mut t = Timer::new(20_000);
    assert_eq!(t, Timer { duration: 20_000, elapsed: 0, times_finished: 0 });
    assert!(!t.finished());
    t.tick(19_999);
    assert_eq!(t, Timer { duration: 20_000, elapsed: 19_999, times_finished: 0 });
    assert!(!t.finished());
    t.tick(1);
    assert_eq!(t, Timer { duration: 20_000, elapsed: 0, times_finished: 1 });
    assert!(t.finished());
    t.tick(0);
    assert_eq!(t, Timer { duration: 20_000, elapsed: 0, times_finished: 0 });
    t.tick(70_001);
    assert_eq!(t, Timer { duration: 20_000, elapsed: 10_001, times_finished: 3 });
    t.tick(9_999);
    assert_eq!(t, Timer { duration: 20_000, elapsed: 0, times_finished: 1 });
}

#[test]
fn timer_at_the_ends_of_its_range() {
    let mut t = Timer { duration: 1, elapsed: 0, times_finished: 0 };
    t.tick(u64::MAX);
    assert_eq!(t, Timer { duration: 1, elapsed: 0, times_finished: u64::MAX });
    let mut t = Timer { duration: u64::MAX, elapsed: u64::MAX - 1, times_finished: 0 };
    t.tick(u64::MAX);
    assert_eq!(t, Timer { duration: u64::MAX, elapsed: u64::MAX - 1, times_finished: 1 });
    let mut t = Timer { duration: 2, elapsed: 1, times_finished: 0 };
    t.tick(u64::MAX);
    assert_eq!(t, Timer { duration: 2, elapsed: 0, times_finished: 9_223_372_036_854_775_808 });
    assert!(!Timer { duration: 0, elapsed: 0, times_finished: 0 }.is_wf());
    assert!(!Timer { duration: 5, elapsed: 5, times_finished: 0 }.is_wf());
    assert!(Timer { duration: 5, elapsed: 4, times_finished: 9 }.is_wf());
}

#[test]
fn a_request_becomes_an_explosion_on_its_first_frame() {
    let mut w = world(16);
    w.explosions = vec![explosion(7, 5, 0, 3)];
    w.explosions_to_spawn =
        vec![ExplosionToSpawn(Vec2 { x: 1, y: 2 }), ExplosionToSpawn(Vec2 { x: -3, y: 4 })];
    explosion_to_spawn(&mut w);
    assert!(w.explosions_to_spawn.is_empty());
    assert_eq!(
        w.explosions,
        vec![
            explosion(7, 5, 0, 3),
            Explosion {
                translation: Vec2 { x: 1, y: 2 },
                timer: Timer { duration: 20_000, elapsed: 0, times_finished: 0 },
                index: 0
            },
            Explosion {
                translation: Vec2 { x: -3, y: 4 },
                timer: Timer { duration: 20_000, elapsed: 0, times_finished: 0 },
                index: 0
            },
        ]
    );
    explosion_to_spawn(&mut w);
    assert_eq!(w.explosions.len(), 3);
}

#[test]
fn the_frame_goes_up_by_one_each_period() {
    let mut w = world(16);
    w.explosions = vec![explosion(0, 0, 0, 0)];
    animate_explosion(&mut w, 16_667);
    assert_eq!(w.explosions, vec![explosion(0, 16_667, 0, 0)]);
    animate_explosion(&mut w, 16_667);
    assert_eq!(w.explosions, vec![explosion(0, 13_334, 1, 1)]);
    animate_explosion(&mut w, 16_667);
    assert_eq!(w.explosions, vec![explosion(0, 10_001, 1, 2)]);
}

#[test]
fn an_explosion_of_sixteen_frames_ends_after_sixteen_periods() {
    let mut w = world(16);
    w.explosions = vec![explosion(0, 0, 0, 0)];
    for k in 1..=15usize {
        animate_explosion(&mut w, 20_000);
        assert_eq!(w.explosions, vec![explosion(0, 0, 1, k)]);
    }
    animate_explosion(&mut w, 19_999);
    assert_eq!(w.explosions, vec![explosion(0, 19_999, 0, 15)]);
    animate_explosion(&mut w, 1);
    assert!(w.explosions.is_empty());
}

#[test]
fn a_long_frame_completes_several_periods() {
    let mut w = world(16);
    w.explosions = vec![explosion(0, 0, 0, 0), explosion(1, 0, 0, 14), explosion(2, 0, 0, 10)];
    animate_explosion(&mut w, 50_000);
    assert_eq!(w.explosions, vec![explosion(0, 10_000, 2, 2), explosion(2, 10_000, 2, 12)]);
    animate_explosion(&mut w, 1_000_000);
    assert!(w.explosions.is_empty());
}

#[test]
fn only_the_explosions_that_are_over_go() {
    let mut w = world(4);
    w.explosions = vec![explosion(0, 0, 0, 3), explosion(1, 0, 0, 1), explosion(2, 10_000, 0, 3)];
    animate_explosion(&mut w, 10_000);
    assert_eq!(w.explosions, vec![explosion(0, 10_000, 0, 3), explosion(1, 10_000, 0, 1)]);
}

#[test]
fn an_explosion_at_the_end_waits_for_its_period() {
    let mut w = world(4);
    w.explosions = vec![explosion(0, 0, 1, 4)];
    animate_explosion(&mut w, 5);
    assert_eq!(w.explosions, vec![explosion(0, 5, 0, 4)]);
    animate_explosion(&mut w, 19_995);
    assert!(w.explosions.is_empty());
}

#[test]
fn a_sheet_without_frames_ends_an_explosion_at_its_first_period() {
    let mut w = world(0);
    w.explosions = vec![explosion(0, 0, 0, 0)];
    animate_explosion(&mut w, 19_999);
    assert_eq!(w.explosions.len(), 1);
    animate_explosion(&mut w, 1);
    assert!(w.explosions.is_empty());
}

#[test]
fn ticks_compose() {
    let e = explosion(0, 7_000, 0, 3);
    let whole = e.animated(90_000, 16);
    let both = e.animated(33_000, 16).animated(57_000, 16);
    assert_eq!(whole.index, both.index);
    assert_eq!(whole.index, 7);
    assert_eq!(whole.timer.elapsed, both.timer.elapsed);
    assert_eq!(whole.timer.elapsed, 17_000);
    assert!(!whole.is_over(16));
    assert!(e.animated(300_000, 16).is_over(16));
    assert_eq!(e.animated(300_000, 16).index, 16);
}
