//! The player-controlled paddle: its per-tick controller and its level
//! setup bundle.

use crate::geometry::Aabb;
use crate::geometry::Vec2;
use crate::physics::lemma_product_in_i128;
use crate::physics::Collider;
use crate::physics::Role;
use crate::PADDLE_SPEED;
use crate::POS_SCALE;
use vstd::prelude::*;

verus! {

/// Marker for the single player-controlled paddle.
pub struct Paddle;

/// The controller's direction for one tick: a single pressed key gives
/// its sign, both or neither cancel to zero.
pub open spec fn paddle_direction(left_pressed: bool, right_pressed: bool) -> int {
    (if right_pressed {
        1int
    } else {
        0int
    }) - (if left_pressed {
        1int
    } else {
        0int
    })
}

/// Moves the paddle horizontally by the commanded displacement
/// `direction * PADDLE_SPEED * dt`.  Nothing clamps the paddle to the
/// arena: the walls do not stop it.
pub fn move_paddle(paddle_x: &mut i64, left_pressed: bool, right_pressed: bool, dt_micros: i64)
    requires
        0 <= dt_micros,
        i64::MIN <= *old(paddle_x) - PADDLE_SPEED * dt_micros,
        *old(paddle_x) + PADDLE_SPEED * dt_micros <= i64::MAX,
    ensures
        *final(paddle_x) == *old(paddle_x) + paddle_direction(left_pressed, right_pressed)
            * (PADDLE_SPEED * dt_micros),
{
    proof {
        lemma_product_in_i128(PADDLE_SPEED as int, dt_micros as int);
    }
    let sd: i128 = (PADDLE_SPEED as i128) * (dt_micros as i128);
    let nx: i128 = if right_pressed && !left_pressed {
        *paddle_x as i128 + sd
    } else if left_pressed && !right_pressed {
        *paddle_x as i128 - sd
    } else {
        *paddle_x as i128
    };
    proof {
        let d = paddle_direction(left_pressed, right_pressed);
        assert(d * (PADDLE_SPEED * dt_micros) == if d == 1 {
            PADDLE_SPEED * dt_micros
        } else if d == -1 {
            -(PADDLE_SPEED * dt_micros)
        } else {
            0int
        }) by (nonlinear_arith)
            requires
                -1 <= d <= 1,
        ;
    }
    *paddle_x = nx as i64;
}

/// The collider the paddle gets at level start: a 128 x 32 box
/// centered at (0, -300) world units.
pub open spec fn paddle_collider() -> Collider {
    Collider {
        rect: Aabb {
            center: Vec2 { x: 0, y: (-300 * POS_SCALE) as i64 },
            half: Vec2 { x: (64 * POS_SCALE) as i64, y: (16 * POS_SCALE) as i64 },
        },
        role: Role::Paddle,
    }
}

/// Components of the paddle entity at level start.
pub struct PaddleBundle {
    pub paddle: Paddle,
    pub collider: Collider,
    pub translation: Vec2,
}

impl PaddleBundle {
    pub fn new() -> (b: PaddleBundle)
        ensures
            b.translation.x == 0,
            b.translation.y == -300 * POS_SCALE,
            b.collider == paddle_collider(),
            b.collider.rect.wf(),
    {
        let translation = Vec2 { x: 0, y: -300 * POS_SCALE };
        let rect = Aabb::from_center_size(
            translation,
            Vec2 { x: 128 * POS_SCALE, y: 32 * POS_SCALE },
        );
        PaddleBundle { paddle: Paddle, collider: Collider { rect, role: Role::Paddle }, translation }
    }
}

} // verus!
