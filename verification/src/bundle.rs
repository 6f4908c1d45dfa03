//! What the physics engine is asked to create for one body of a map item.

use vstd::prelude::*;
use crate::fixed::{clamp, sub_clamped};
use crate::geometry::{Point, Rect, Triangle};

verus! {

/// What touching a body means for the player.
#[derive(Clone, Copy, Debug, PartialEq, Eq, Structural)]
pub enum MapItem {
    /// A hazard: touching it ends the attempt.
    Obstacle,
    /// A surface to stand on.
    Normal,
    /// A pad that grants one more jump in the air.
    DoubleJump,
    /// The entrance of a fly zone.
    FlyBegin,
    /// The exit of a fly zone.
    FlyEnd,
    /// The finish of the level.
    Pass,
}

/// How the physics engine moves a body.
#[derive(Clone, Copy, Debug, PartialEq, Eq, Structural)]
pub enum RigidBody {
    Fixed,
    Dynamic,
}

/// The shape of a body, relative to its position.
#[derive(Clone, Copy, Debug, PartialEq, Eq, Structural)]
pub enum Collider {
    /// A rectangle around the position, by its half extents.
    Cuboid(i64, i64),
    /// A triangle by its corners.
    Triangle(Point, Point, Point),
    /// A disc around the position, by its radius.
    Ball(i64),
}

/// One body of a map item: how it moves, its shape, where it is, what it means, and
/// whether it only senses overlap instead of blocking.
#[derive(Clone, Copy, Debug, PartialEq, Eq, Structural)]
pub struct MapItemBundle {
    pub rigid: RigidBody,
    pub collider: Collider,
    pub position: Point,
    pub map_item: MapItem,
    pub sensor: bool,
}

impl MapItemBundle {
    /// The body of a rectangle that is a solid hazard (`obstacle`) or a strip to stand on.
    pub open spec fn spec_rect_item(rect: Rect, obstacle: bool) -> MapItemBundle {
        MapItemBundle {
            rigid: RigidBody::Fixed,
            collider: Collider::Cuboid(rect.half_w, rect.half_h),
            position: Point { x: rect.x, y: rect.y },
            map_item: if obstacle {
                MapItem::Obstacle
            } else {
                MapItem::Normal
            },
            sensor: !obstacle,
        }
    }

    /// The body of a rectangle that opens (`begin`) or closes a fly zone.
    pub open spec fn spec_rect_fly(rect: Rect, begin: bool) -> MapItemBundle {
        MapItemBundle {
            rigid: RigidBody::Fixed,
            collider: Collider::Cuboid(rect.half_w, rect.half_h),
            position: Point { x: rect.x, y: rect.y },
            map_item: if begin {
                MapItem::FlyBegin
            } else {
                MapItem::FlyEnd
            },
            sensor: true,
        }
    }

    /// The body of the rectangle that finishes the level.
    pub open spec fn spec_rect_pass(rect: Rect) -> MapItemBundle {
        MapItemBundle {
            rigid: RigidBody::Fixed,
            collider: Collider::Cuboid(rect.half_w, rect.half_h),
            position: Point { x: rect.x, y: rect.y },
            map_item: MapItem::Pass,
            sensor: true,
        }
    }

    /// The body of a triangular hazard: placed at the first corner, with the other two
    /// corners given relative to it.
    pub open spec fn spec_tri_obstacle(tri: Triangle) -> MapItemBundle {
        MapItemBundle {
            rigid: RigidBody::Fixed,
            collider: Collider::Triangle(
                Point { x: 0, y: 0 },
                Point {
                    x: clamp(tri.middle.x - tri.first.x) as i64,
                    y: clamp(tri.middle.y - tri.first.y) as i64,
                },
                Point {
                    x: clamp(tri.last.x - tri.first.x) as i64,
                    y: clamp(tri.last.y - tri.first.y) as i64,
                },
            ),
            position: tri.first,
            map_item: MapItem::Obstacle,
            sensor: false,
        }
    }

    /// The body of a round double-jump pad.
    pub open spec fn spec_circle_double_jump(pos: Point, radius: i64) -> MapItemBundle {
        MapItemBundle {
            rigid: RigidBody::Fixed,
            collider: Collider::Ball(radius),
            position: pos,
            map_item: MapItem::DoubleJump,
            sensor: true,
        }
    }

    /// The body of a rectangle that is a solid hazard (`obstacle`) or a strip to stand on.
    pub fn rect_item(rect: &Rect, obstacle: bool) -> (bundle: Self)
        ensures
            bundle == Self::spec_rect_item(*rect, obstacle),
    {
        MapItemBundle {
            rigid: RigidBody::Fixed,
            collider: Collider::Cuboid(rect.half_w, rect.half_h),
            position: Point { x: rect.x, y: rect.y },
            map_item: if obstacle {
                MapItem::Obstacle
            } else {
                MapItem::Normal
            },
            sensor: !obstacle,
        }
    }

    /// The body of a rectangle that opens (`begin`) or closes a fly zone.
    pub fn rect_fly(rect: &Rect, begin: bool) -> (bundle: Self)
        ensures
            bundle == Self::spec_rect_fly(*rect, begin),
    {
        MapItemBundle {
            rigid: RigidBody::Fixed,
            collider: Collider::Cuboid(rect.half_w, rect.half_h),
            position: Point { x: rect.x, y: rect.y },
            map_item: if begin {
                MapItem::FlyBegin
            } else {
                MapItem::FlyEnd
            },
            sensor: true,
        }
    }

    /// The body of the rectangle that finishes the level.
    pub fn rect_pass(rect: &Rect) -> (bundle: Self)
        ensures
            bundle == Self::spec_rect_pass(*rect),
    {
        MapItemBundle {
            rigid: RigidBody::Fixed,
            collider: Collider::Cuboid(rect.half_w, rect.half_h),
            position: Point { x: rect.x, y: rect.y },
            map_item: MapItem::Pass,
            sensor: true,
        }
    }

    /// The body of a triangular hazard, placed at its first corner.
    pub fn tri_obstacle(tri: &Triangle) -> (bundle: Self)
        ensures
            bundle == Self::spec_tri_obstacle(*tri),
    {
        MapItemBundle {
            rigid: RigidBody::Fixed,
            collider: Collider::Triangle(
                Point { x: 0, y: 0 },
                Point {
                    x: sub_clamped(tri.middle.x, tri.first.x),
                    y: sub_clamped(tri.middle.y, tri.first.y),
                },
                Point {
                    x: sub_clamped(tri.last.x, tri.first.x),
                    y: sub_clamped(tri.last.y, tri.first.y),
                },
            ),
            position: tri.first,
            map_item: MapItem::Obstacle,
            sensor: false,
        }
    }

    /// The body of a round double-jump pad.
    pub fn circle_double_jump(pos: &Point, radius: i64) -> (bundle: Self)
        ensures
            bundle == Self::spec_circle_double_jump(*pos, radius),
    {
        MapItemBundle {
            rigid: RigidBody::Fixed,
            collider: Collider::Ball(radius),
            position: *pos,
            map_item: MapItem::DoubleJump,
            sensor: true,
        }
    }
}

} // verus!
