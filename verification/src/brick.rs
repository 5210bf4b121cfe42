//! Bricks: destructible targets, removed the tick the ball touches
//! them.

use crate::geometry::Aabb;
use crate::geometry::Vec2;
use crate::physics::Collider;
use crate::physics::Role;
use crate::POS_SCALE;
use vstd::prelude::*;

verus! {

/// Marker for a destructible brick.
pub struct Brick;

/// The collider a brick at `translation` gets: a 50 x 20 box,
/// destructible under identity `id`.
pub open spec fn brick_collider(translation: Vec2, id: u64) -> Collider {
    Collider {
        rect: Aabb {
            center: translation,
            half: Vec2 { x: (25 * POS_SCALE) as i64, y: (10 * POS_SCALE) as i64 },
        },
        role: Role::Destructible(id),
    }
}

/// Components of one brick entity.
pub struct BrickBundle {
    pub brick: Brick,
    pub collider: Collider,
    pub translation: Vec2,
}

impl BrickBundle {
    pub fn new(translation: Vec2, id: u64) -> (b: BrickBundle)
        requires
            i64::MIN <= translation.x - 25 * POS_SCALE,
            translation.x + 25 * POS_SCALE <= i64::MAX,
            i64::MIN <= translation.y - 10 * POS_SCALE,
            translation.y + 10 * POS_SCALE <= i64::MAX,
        ensures
            b.translation == translation,
            b.collider == brick_collider(translation, id),
            b.collider.rect.wf(),
    {
        let rect = Aabb::from_center_size(
            translation,
            Vec2 { x: 50 * POS_SCALE, y: 20 * POS_SCALE },
        );
        BrickBundle {
            brick: Brick,
            collider: Collider { rect, role: Role::Destructible(id) },
            translation,
        }
    }
}

} // verus!
