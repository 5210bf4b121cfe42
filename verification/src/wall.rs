//! The three static boundary walls.  There is intentionally no bottom
//! wall: a ball that escapes past the paddle is never brought back.

use crate::geometry::Aabb;
use crate::geometry::Vec2;
use crate::physics::Collider;
use crate::physics::Role;
use crate::POS_SCALE;
use vstd::prelude::*;

verus! {

pub const LEFT_WALL: i64 = -450 * POS_SCALE;

pub const RIGHT_WALL: i64 = 450 * POS_SCALE;

pub const BOTTOM_WALL: i64 = -300 * POS_SCALE;

pub const TOP_WALL: i64 = 300 * POS_SCALE;

pub const WALL_THICKNESS: i64 = 4 * POS_SCALE;

/// Full height of the side walls: the arena height plus the thickness.
pub const SIDE_WALL_HEIGHT: i64 = TOP_WALL - BOTTOM_WALL + WALL_THICKNESS;

/// Full width of the top wall: the arena width plus the thickness.
pub const TOP_WALL_WIDTH: i64 = RIGHT_WALL - LEFT_WALL + WALL_THICKNESS;

/// Which boundary a wall closes off.
pub enum WallLocation {
    Left,
    Right,
    Top,
}

impl WallLocation {
    /// Center of this wall's box.
    pub fn position(&self) -> (p: Vec2)
        ensures
            p == match self {
                WallLocation::Left => Vec2 { x: LEFT_WALL, y: 0 },
                WallLocation::Right => Vec2 { x: RIGHT_WALL, y: 0 },
                WallLocation::Top => Vec2 { x: 0, y: TOP_WALL },
            },
    {
        match self {
            WallLocation::Left => Vec2 { x: LEFT_WALL, y: 0 },
            WallLocation::Right => Vec2 { x: RIGHT_WALL, y: 0 },
            WallLocation::Top => Vec2 { x: 0, y: TOP_WALL },
        }
    }

    /// Full size of this wall's box: side walls span the arena height
    /// plus the wall thickness, the top wall the arena width plus the
    /// thickness.
    pub fn size(&self) -> (s: Vec2)
        ensures
            s == match self {
                WallLocation::Left | WallLocation::Right => Vec2 {
                    x: WALL_THICKNESS,
                    y: SIDE_WALL_HEIGHT,
                },
                WallLocation::Top => Vec2 { x: TOP_WALL_WIDTH, y: WALL_THICKNESS },
            },
    {
        let arena_height = TOP_WALL - BOTTOM_WALL;
        let arena_width = RIGHT_WALL - LEFT_WALL;
        match self {
            WallLocation::Left | WallLocation::Right => Vec2 {
                x: WALL_THICKNESS,
                y: arena_height + WALL_THICKNESS,
            },
            WallLocation::Top => Vec2 { x: arena_width + WALL_THICKNESS, y: WALL_THICKNESS },
        }
    }
}

/// The collider a wall at `location` gets: a plain box, never removed.
pub open spec fn wall_collider(location: WallLocation) -> Collider {
    Collider {
        rect: Aabb {
            center: match location {
                WallLocation::Left => Vec2 { x: LEFT_WALL, y: 0 },
                WallLocation::Right => Vec2 { x: RIGHT_WALL, y: 0 },
                WallLocation::Top => Vec2 { x: 0, y: TOP_WALL },
            },
            half: match location {
                WallLocation::Left | WallLocation::Right => Vec2 {
                    x: (2 * POS_SCALE) as i64,
                    y: (302 * POS_SCALE) as i64,
                },
                WallLocation::Top => Vec2 {
                    x: (452 * POS_SCALE) as i64,
                    y: (2 * POS_SCALE) as i64,
                },
            },
        },
        role: Role::Plain,
    }
}

/// Components of one wall entity: a plain collider, never removed.
pub struct WallBundle {
    pub collider: Collider,
}

impl WallBundle {
    pub fn new(location: WallLocation) -> (b: WallBundle)
        ensures
            b.collider == wall_collider(location),
            b.collider.rect.wf(),
    {
        let position = location.position();
        let size = location.size();
        let rect = Aabb::from_center_size(position, size);
        WallBundle { collider: Collider { rect, role: Role::Plain } }
    }
}

} // verus!
