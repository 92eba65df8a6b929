//! Axis-aligned rectangles used while generating a dungeon. Rooms exist only
//! during generation and are discarded once corridors are carved.

use vstd::prelude::*;

verus! {

/// A rectangle spanning x1..=x2 by y1..=y2 (inclusive bounding box).
#[derive(Clone, Copy, Debug, PartialEq, Eq, Structural)]
pub struct Room {
    pub x1: i32,
    pub y1: i32,
    pub x2: i32,
    pub y2: i32,
}

impl Room {
    /// Whether the inclusive bounding boxes of the two rooms overlap.
    pub open spec fn spec_intersect(self, other: Room) -> bool {
        self.x1 <= other.x2 && self.x2 >= other.x1 && self.y1 <= other.y2 && self.y2 >= other.y1
    }

    /// The cell at the middle of the room (coordinates rounded down).
    pub open spec fn spec_center(self) -> (int, int) {
        ((self.x1 + self.x2) / 2, (self.y1 + self.y2) / 2)
    }

    pub fn new(x: i32, y: i32, w: i32, h: i32) -> (r: Self)
        requires
            i32::MIN <= x + w <= i32::MAX,
            i32::MIN <= y + h <= i32::MAX,
        ensures
            r == (Room { x1: x, y1: y, x2: (x + w) as i32, y2: (y + h) as i32 }),
    {
        Self { x1: x, y1: y, x2: x + w, y2: y + h }
    }

    pub fn intersect(&self, other: &Room) -> (r: bool)
        ensures
            r == self.spec_intersect(*other),
    {
        self.x1 <= other.x2 && self.x2 >= other.x1 && self.y1 <= other.y2 && self.y2 >= other.y1
    }

    pub fn center(&self) -> (r: (i32, i32))
        requires
            0 <= self.x1 + self.x2 <= i32::MAX,
            0 <= self.y1 + self.y2 <= i32::MAX,
        ensures
            (r.0 as int, r.1 as int) == self.spec_center(),
    {
        ((self.x1 + self.x2) / 2, (self.y1 + self.y2) / 2)
    }
}

} // verus!
