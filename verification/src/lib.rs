//! Turn-based artillery combat on destructible terrain: the simulation core.
//!
//! The crate holds the deformable terrain, the body integrator, the weapon
//! table and projectile lifecycle, the explosion resolver, the wind model and
//! the turn state machine. All quantities are fixed-point integers (see
//! [`fixed`]), which makes every trajectory reproducible bit for bit.

pub mod fixed;
mod rng;
pub mod terrain;
pub mod worm;
pub mod game_state;
pub mod physics;
pub mod weapons;
pub mod wind;
pub mod explosion;
pub mod aiming;
pub mod ai;
