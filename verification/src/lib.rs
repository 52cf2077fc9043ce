//! Deterministic fixed-timestep core of an Asteroids-style arcade game.
//!
//! One ship, a population of splitting asteroids, short-lived bullets and
//! cosmetic particles move on a playfield that wraps around. Physics
//! advances in fixed ticks that a pacer schedules from the wall time of
//! each frame; input gathered between two ticks is summed and consumed
//! once; rendering blends the last two physical states.
//!
//! All quantities are integers: lengths in thousandths of a pixel, time in
//! microseconds, angles in microradians and ratios in millionths, so that a
//! run is reproducible bit for bit from its seed and its inputs.
//!
//! [`game::Game`] holds the whole state and advances it frame by frame; the
//! other modules hold the subsystems it is made of, each usable alone.

pub mod fixed;
pub mod sequences;
pub mod trig;
pub mod rng;
pub mod timing;
pub mod input;
pub mod playfield;
pub mod entity;
pub mod physics;
pub mod asteroids;
pub mod particles;
pub mod weapons;
pub mod collision;
pub mod events;
pub mod player;
pub mod game;
pub mod ui;
