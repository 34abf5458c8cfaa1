//! The arena: the coordinates of the four walls and the colliders that stand
//! at them. Walls are placed at setup and never move.

use vstd::prelude::*;
use crate::entities::Collider;
use crate::geom::Vec2;

verus! {

/// x coordinate of the left wall's center line, in milliunits.
pub const LEFT_WALL: i64 = -450_000;

/// x coordinate of the right wall's center line, in milliunits.
pub const RIGHT_WALL: i64 = 450_000;

/// y coordinate of the bottom wall's center line, in milliunits.
pub const BOTTOM_WALL: i64 = -300_000;

/// y coordinate of the top wall's center line, in milliunits.
pub const TOP_WALL: i64 = 300_000;

/// Thickness of each wall, in milliunits.
pub const WALL_THICKNESS: i64 = 10_000;

/// Which of the four arena edges a wall stands at.
#[derive(Clone, Copy, PartialEq, Eq, Structural, Debug)]
pub enum WallLocation {
    Left,
    Right,
    Bottom,
    Top,
}

impl WallLocation {
    /// Center of the wall at this edge.
    pub fn position(&self) -> (r: Vec2)
        ensures
            r == (match *self {
                WallLocation::Left => (Vec2 { x: LEFT_WALL, y: 0 }),
                WallLocation::Right => (Vec2 { x: RIGHT_WALL, y: 0 }),
                WallLocation::Bottom => (Vec2 { x: 0, y: BOTTOM_WALL }),
                WallLocation::Top => (Vec2 { x: 0, y: TOP_WALL }),
            }),
    {
        match self {
            WallLocation::Left => Vec2 { x: LEFT_WALL, y: 0 },
            WallLocation::Right => Vec2 { x: RIGHT_WALL, y: 0 },
            WallLocation::Bottom => Vec2 { x: 0, y: BOTTOM_WALL },
            WallLocation::Top => Vec2 { x: 0, y: TOP_WALL },
        }
    }

    /// Full extent of the wall at this edge: side walls span the arena
    /// height plus one thickness, top and bottom walls the width plus one
    /// thickness, so the corners are filled.
    pub fn size(&self) -> (r: Vec2)
        ensures
            r == (match *self {
                WallLocation::Left | WallLocation::Right => (Vec2 {
                    x: WALL_THICKNESS,
                    y: (TOP_WALL - BOTTOM_WALL + WALL_THICKNESS) as i64,
                }),
                WallLocation::Bottom | WallLocation::Top => (Vec2 {
                    x: (RIGHT_WALL - LEFT_WALL + WALL_THICKNESS) as i64,
                    y: WALL_THICKNESS,
                }),
            }),
            r.x > 0 && r.y > 0,
    {
        let arena_height: i64 = TOP_WALL - BOTTOM_WALL;
        let arena_width: i64 = RIGHT_WALL - LEFT_WALL;
        assert(arena_height > 0);
        assert(arena_width > 0);
        match self {
            WallLocation::Left | WallLocation::Right => Vec2 {
                x: WALL_THICKNESS,
                y: arena_height + WALL_THICKNESS,
            },
            WallLocation::Bottom | WallLocation::Top => Vec2 {
                x: arena_width + WALL_THICKNESS,
                y: WALL_THICKNESS,
            },
        }
    }
}

/// The collider of the wall at `location`.
pub open spec fn wall_collider_spec(location: WallLocation) -> Collider {
    let pos = match location {
        WallLocation::Left => Vec2 { x: LEFT_WALL, y: 0 },
        WallLocation::Right => Vec2 { x: RIGHT_WALL, y: 0 },
        WallLocation::Bottom => Vec2 { x: 0, y: BOTTOM_WALL },
        WallLocation::Top => Vec2 { x: 0, y: TOP_WALL },
    };
    let size = match location {
        WallLocation::Left | WallLocation::Right => Vec2 {
            x: WALL_THICKNESS,
            y: (TOP_WALL - BOTTOM_WALL + WALL_THICKNESS) as i64,
        },
        WallLocation::Bottom | WallLocation::Top => Vec2 {
            x: (RIGHT_WALL - LEFT_WALL + WALL_THICKNESS) as i64,
            y: WALL_THICKNESS,
        },
    };
    Collider { pos, size }
}

/// Build the collider of the wall at `location`.
pub fn wall_collider(location: WallLocation) -> (r: Collider)
    ensures
        r == wall_collider_spec(location),
{
    Collider { pos: location.position(), size: location.size() }
}

/// The colliders of the four arena walls, in the order they are placed at
/// setup: left, right, bottom, top.
pub open spec fn arena_walls() -> Seq<Collider> {
    seq![
        wall_collider_spec(WallLocation::Left),
        wall_collider_spec(WallLocation::Right),
        wall_collider_spec(WallLocation::Bottom),
        wall_collider_spec(WallLocation::Top),
    ]
}

} // verus!
