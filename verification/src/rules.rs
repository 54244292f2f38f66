//! The constants that fix the rules of play.

use vstd::prelude::*;

verus! {

/// No enemy is spawned while this many are alive.
pub const MAX_ENEMIES: u32 = 4;

/// A formation is shared by at most this many enemies.
pub const MAX_FORMATION_MEMBERS: u32 = 2;

/// The window after a death that the respawn rule compares against, in
/// microseconds.
pub const PLAYER_RESPAWN_DELAY: u64 = 2_000_000;

/// The speed every ship and projectile is created with, in units per second.
pub const DEFAULT_SPEED: u32 = 500_000;

/// The period of the enemy spawner, in microseconds.
pub const ENEMY_SPAWN_PERIOD: u64 = 1_000_000;

/// The period at which enemies fire, in microseconds.
pub const ENEMY_FIRE_PERIOD: u64 = 850_000;

/// The period at which a dead player is considered for respawn, in
/// microseconds.
pub const PLAYER_SPAWN_PERIOD: u64 = 500_000;

/// The time one explosion frame is shown, in microseconds.
pub const EXPLOSION_FRAME_PERIOD: u64 = 20_000;

/// How far below an enemy its projectile appears.
pub const ENEMY_MUZZLE_DROP: i64 = 15_000;

/// How far above the player its projectiles appear.
pub const PLAYER_MUZZLE_RISE: i64 = 19_000;

/// How far to either side of the player its two projectiles appear.
pub const PLAYER_MUZZLE_SPREAD: i64 = 31_000;

/// How far above the bottom edge the player appears.
pub const PLAYER_SPAWN_RISE: i64 = 23_750;

/// How far below the bottom edge an enemy projectile is removed.
pub const ENEMY_LASER_MARGIN: i64 = 50_000;

/// The band kept free of formation starts at the top and bottom of the
/// playfield.
pub const FORMATION_MARGIN: i64 = 100_000;

/// The least horizontal radius of a formation's path.
pub const FORMATION_RADIUS_MIN: i64 = 80_000;

/// The bound below which the horizontal radius of a formation's path is
/// drawn.
pub const FORMATION_RADIUS_END: i64 = 150_000;

/// The vertical radius of every formation's path.
pub const FORMATION_RADIUS_Y: i64 = 100_000;

/// An enemy closer than `max_step * speed / COMMIT_DIVISOR` pixels to its
/// target lets its formation's angle advance.
pub const COMMIT_DIVISOR: i64 = 20;

} // verus!
