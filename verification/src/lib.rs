//! Core simulation of a paddle-and-bricks arcade game.
//!
//! The library covers the per-tick simulation pipeline: the paddle
//! controller, the velocity integrator, and the collision resolver that
//! bounces the ball off walls, deflects it off the paddle by an
//! angle-based rule, and destroys bricks on contact.  Rendering,
//! windowing and input polling belong to an engine host outside this
//! crate; the host hands the simulation plain values (pressed keys, the
//! fixed tick duration) and reads plain values back.
//!
//! All scalars are fixed-point integers, so that every step of the
//! simulation is exact and free of overflow:
//!
//! * positions and lengths carry `POS_SCALE` subunits per world unit;
//! * velocities carry `VEL_SCALE` subunits per world unit per second;
//! * tick durations are in microseconds (`TIME_SCALE` per second).
//!
//! Because `POS_SCALE == VEL_SCALE * TIME_SCALE`, advancing a position
//! by `velocity * dt` is a single exact integer multiplication.

use vstd::prelude::*;

pub mod ball;
pub mod brick;
pub mod geometry;
pub mod paddle;
pub mod physics;
pub mod trig;
pub mod wall;
pub mod world;

verus! {

/// Microseconds per second: the unit of tick durations.
pub const TIME_SCALE: i64 = 1_000_000;

/// Velocity subunits per world unit per second.
pub const VEL_SCALE: i64 = 1_000;

/// Position subunits per world unit; equals `VEL_SCALE * TIME_SCALE`.
pub const POS_SCALE: i64 = 1_000_000_000;

/// Horizontal paddle speed, in velocity subunits per second (500 units/s).
pub const PADDLE_SPEED: i64 = 500 * VEL_SCALE;

/// Speed the ball is reset to by every paddle bounce (400 units/s).
pub const BALL_BASE_SPEED: i64 = 400 * VEL_SCALE;

/// Radius of the ball's bounding circle: exactly one world unit.
pub const BALL_RADIUS: i64 = 1 * POS_SCALE;

} // verus!
