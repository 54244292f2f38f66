//! The simulation core of a fixed-viewpoint shooter: waves of enemies fly
//! along curved formation paths, both sides fire projectiles, hits remove
//! what they hit, the player dies and reappears, and explosions play and
//! end.
//!
//! The simulation is deterministic and works on whole numbers throughout.
//! Lengths are thousandths of a pixel, scale factors thousandths, times
//! microseconds, and angles micro-radians attached to the direction of a
//! vector of whole numbers ([`units`], [`angle`]). Two things come from
//! outside. New formations draw their shape from a random number generator;
//! each function that does so has a twin that takes the drawn values as an
//! argument and says exactly what it makes of them. And the simulation
//! evaluates no trigonometric function: before each frame the host asks for
//! the angles the enemies will be aimed by ([`enemy::candidate_angles`]) and
//! hands back their cosines and sines.
//!
//! Everything the systems read and change lives in one [`world::World`].
//! Each system is a function from world to world, stated as a function on
//! the world's view; [`game::Invaders`] fixes the order in which the systems
//! run in a frame and the cadence of those that do not run in every frame.
//! A world is well formed ([`world::WorldView::wf`]) when its counter of
//! active enemies equals the number of enemies alive and the player is
//! recorded as alive exactly when there is one, among other things; every
//! system takes a well-formed world to a well-formed world.

pub mod angle;
pub mod collision;
pub mod enemy;
pub mod entity;
pub mod explosion;
pub mod formation;
pub mod game;
pub mod laser;
pub mod player;
pub mod pursuit;
pub mod resources;
pub mod rules;
pub mod timer;
pub mod units;
pub mod world;
