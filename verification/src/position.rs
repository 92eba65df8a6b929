//! Grid positions. One per entity, mutated only by the movement controller.

use vstd::prelude::*;

verus! {

/// An integer grid coordinate, row-major on the map (x column, y row).
#[derive(Clone, Copy, Debug, PartialEq, Eq, Hash, Structural)]
pub struct Position {
    pub x: i32,
    pub y: i32,
}

impl Position {
    pub fn new(x: i32, y: i32) -> (r: Self)
        ensures
            r.x == x,
            r.y == y,
    {
        Self { x, y }
    }

    /// The position displaced by the given delta.
    pub fn offset(self, dx: i32, dy: i32) -> (r: Self)
        requires
            i32::MIN <= self.x + dx <= i32::MAX,
            i32::MIN <= self.y + dy <= i32::MAX,
        ensures
            r.x == self.x + dx,
            r.y == self.y + dy,
    {
        Self { x: self.x + dx, y: self.y + dy }
    }
}

/// Which dungeon level an entity is on.
#[derive(Clone, Copy, Debug, PartialEq, Eq, Hash, Structural)]
pub struct MapLevel(pub i32);

} // verus!
