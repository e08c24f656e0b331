//! Placement events and the three shapes they stand for.

use vstd::prelude::*;
use crate::error::MalformedEvent;

verus! {

/// The value of an auxiliary field that is not in use.
pub const UNSET: i32 = 0x7fff_ffff;

/// One row of the event store.
#[derive(Clone, Copy, Debug, PartialEq, Eq, Structural)]
pub struct PlacementEvent {
    /// Milliseconds since the epoch.
    pub timestamp: i64,
    /// Who placed it. Carried along, never read by the renderer.
    pub actor_id: i64,
    /// The point, the circle's centre, or the rectangle's first corner.
    pub x: i32,
    pub y: i32,
    /// The circle's radius or the second corner's x; `UNSET` for a point.
    pub aux1: i32,
    /// The second corner's y; `UNSET` for a point and for a circle.
    pub aux2: i32,
    /// Packed RGB in the low 24 bits.
    pub color: u32,
}

/// What an event paints.
#[derive(Clone, Copy, Debug, PartialEq, Eq, Structural)]
pub enum Shape {
    Point { x: i32, y: i32 },
    /// A filled disk. A negative radius covers nothing.
    Circle { cx: i32, cy: i32, radius: i32 },
    /// A filled rectangle given by two opposite corners, both inside it.
    Rectangle { ax: i32, ay: i32, bx: i32, by: i32 },
}

pub open spec fn lesser(a: int, b: int) -> int {
    if a <= b { a } else { b }
}

pub open spec fn greater(a: int, b: int) -> int {
    if a <= b { b } else { a }
}

impl Shape {
    /// Whether the cell `(x, y)` belongs to the shape.
    pub open spec fn covers(self, x: int, y: int) -> bool {
        match self {
            Shape::Point { x: px, y: py } => x == px && y == py,
            Shape::Circle { cx, cy, radius } => {
                &&& radius >= 0
                &&& (x - cx) * (x - cx) + (y - cy) * (y - cy) <= radius * radius
            },
            Shape::Rectangle { ax, ay, bx, by } => {
                &&& lesser(ax as int, bx as int) <= x <= greater(ax as int, bx as int)
                &&& lesser(ay as int, by as int) <= y <= greater(ay as int, by as int)
            },
        }
    }
}

impl Shape {
    /// Tests whether the cell `(x, y)` belongs to the shape.
    pub fn contains(&self, x: i32, y: i32) -> (r: bool)
        ensures
            r == self.covers(x as int, y as int),
    {
        match *self {
            Shape::Point { x: px, y: py } => x == px && y == py,
            Shape::Circle { cx, cy, radius } => {
                if radius < 0 {
                    return false;
                }
                let reach: i64 = radius as i64;
                let dx: i64 = x as i64 - cx as i64;
                let dy: i64 = y as i64 - cy as i64;
                if dx > reach || dx < -reach || dy > reach || dy < -reach {
                    assert((dx * dx + dy * dy) > reach * reach) by (nonlinear_arith)
                        requires
                            reach >= 0,
                            dx > reach || dx < -reach || dy > reach || dy < -reach,
                    ;
                    return false;
                }
                assert(0 <= dx * dx <= reach * reach && 0 <= dy * dy <= reach * reach && reach
                    * reach <= 0x3fff_ffff_0000_0001) by (nonlinear_arith)
                    requires
                        0 <= reach <= 0x7fff_ffff,
                        -reach <= dx <= reach,
                        -reach <= dy <= reach,
                ;
                dx * dx + dy * dy <= reach * reach
            },
            Shape::Rectangle { ax, ay, bx, by } => {
                let left: i32 = if ax <= bx { ax } else { bx };
                let right: i32 = if ax <= bx { bx } else { ax };
                let top: i32 = if ay <= by { ay } else { by };
                let bottom: i32 = if ay <= by { by } else { ay };
                left <= x && x <= right && top <= y && y <= bottom
            },
        }
    }
}

impl PlacementEvent {
    /// The shape that the two auxiliary fields select, if they select one.
    pub open spec fn shape(self) -> Option<Shape> {
        if self.aux2 == UNSET {
            if self.aux1 == UNSET {
                Some(Shape::Point { x: self.x, y: self.y })
            } else {
                Some(Shape::Circle { cx: self.x, cy: self.y, radius: self.aux1 })
            }
        } else if self.aux1 == UNSET {
            None
        } else {
            Some(Shape::Rectangle { ax: self.x, ay: self.y, bx: self.aux1, by: self.aux2 })
        }
    }

    /// Classifies the event by which of its auxiliary fields are unset.
    ///
    /// Both unset is a point, only the second a circle, neither a rectangle.
    /// Only the first unset has no meaning and is rejected.
    pub fn decode(&self) -> (r: Result<Shape, MalformedEvent>)
        ensures
            self.aux1 == UNSET && self.aux2 == UNSET ==> r == Ok::<Shape, MalformedEvent>(
                Shape::Point { x: self.x, y: self.y },
            ),
            self.aux1 != UNSET && self.aux2 == UNSET ==> r == Ok::<Shape, MalformedEvent>(
                Shape::Circle { cx: self.x, cy: self.y, radius: self.aux1 },
            ),
            self.aux1 != UNSET && self.aux2 != UNSET ==> r == Ok::<Shape, MalformedEvent>(
                Shape::Rectangle { ax: self.x, ay: self.y, bx: self.aux1, by: self.aux2 },
            ),
            self.aux1 == UNSET && self.aux2 != UNSET ==> r == Err::<Shape, MalformedEvent>(
                MalformedEvent::AmbiguousSentinel,
            ),
            r is Ok <==> self.shape() is Some,
            r is Ok ==> self.shape() == Some(r->Ok_0),
    {
        if self.aux2 == UNSET {
            if self.aux1 == UNSET {
                Ok(Shape::Point { x: self.x, y: self.y })
            } else {
                Ok(Shape::Circle { cx: self.x, cy: self.y, radius: self.aux1 })
            }
        } else if self.aux1 == UNSET {
            Err(MalformedEvent::AmbiguousSentinel)
        } else {
            Ok(Shape::Rectangle { ax: self.x, ay: self.y, bx: self.aux1, by: self.aux2 })
        }
    }
}

} // verus!
