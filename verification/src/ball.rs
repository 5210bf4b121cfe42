//! The ball: the single moving body of the simulation.

use crate::geometry::Vec2;
use crate::physics::Velocity;
use crate::BALL_BASE_SPEED;
use crate::POS_SCALE;
use vstd::prelude::*;

verus! {

/// Marker for the single ball.
pub struct Ball;

/// Components of the ball entity at level start: at (0, 100) world
/// units, falling straight down at the base speed.
pub struct BallBundle {
    pub ball: Ball,
    pub velocity: Velocity,
    pub translation: Vec2,
}

impl BallBundle {
    pub fn new() -> (b: BallBundle)
        ensures
            b.translation.x == 0,
            b.translation.y == 100 * POS_SCALE,
            b.velocity.x == 0,
            b.velocity.y == -BALL_BASE_SPEED,
    {
        BallBundle {
            ball: Ball,
            velocity: Velocity { x: 0, y: -BALL_BASE_SPEED },
            translation: Vec2 { x: 0, y: 100 * POS_SCALE },
        }
    }
}

} // verus!
