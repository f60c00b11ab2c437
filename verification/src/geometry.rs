//! Axis-aligned rectangles: the rooms of the dungeon while it is generated.
//!
//! A room's interior is the open range `x1+1..x2` by `y1+1..y2`; the outermost
//! ring of cells is left as wall so that carving the room keeps a border.

use vstd::prelude::*;

verus! {

/// An axis-aligned rectangle with corners `(x1, y1)` and `(x2, y2)`,
/// both included in its closed extent.
#[derive(Clone, Copy, Debug, PartialEq, Eq, Structural)]
pub struct Rect {
    pub x1: i32,
    pub y1: i32,
    pub x2: i32,
    pub y2: i32,
}

impl Rect {
    /// A rectangle in sane shape: non-negative corners in order, with room
    /// for at least one interior cell, and far from `i32` overflow.
    pub open spec fn wf(self) -> bool {
        &&& 0 <= self.x1
        &&& self.x1 + 2 <= self.x2 <= 0x10000
        &&& 0 <= self.y1
        &&& self.y1 + 2 <= self.y2 <= 0x10000
    }

    /// The midpoint of the closed extent, rounded down.
    pub open spec fn spec_center(self) -> (int, int) {
        ((self.x1 + self.x2) / 2, (self.y1 + self.y2) / 2)
    }

    /// Whether the closed extents of the two rectangles share a cell.
    /// Edge-adjacent rectangles count as intersecting, which preserves a
    /// one-cell wall between accepted rooms.
    pub open spec fn spec_intersects(self, other: Rect) -> bool {
        self.x1 <= other.x2 && self.x2 >= other.x1 && self.y1 <= other.y2 && self.y2 >= other.y1
    }

    /// Whether `(x, y)` lies strictly inside the rectangle: the cells a room
    /// carve empties.
    pub open spec fn spec_interior(self, x: int, y: int) -> bool {
        self.x1 < x < self.x2 && self.y1 < y < self.y2
    }

    pub fn new(x: i32, y: i32, width: i32, height: i32) -> (r: Rect)
        requires
            0 <= x,
            0 <= y,
            0 <= width,
            0 <= height,
            x + width <= i32::MAX,
            y + height <= i32::MAX,
        ensures
            r == (Rect { x1: x, y1: y, x2: (x + width) as i32, y2: (y + height) as i32 }),
    {
        Rect { x1: x, y1: y, x2: x + width, y2: y + height }
    }

    /// The center of the rectangle; for a well-formed room this cell lies in
    /// the interior.
    pub fn center(&self) -> (c: (i32, i32))
        requires
            self.wf(),
        ensures
            (c.0 as int, c.1 as int) == self.spec_center(),
            self.spec_interior(c.0 as int, c.1 as int),
    {
        let center_x = (self.x1 + self.x2) / 2;
        let center_y = (self.y1 + self.y2) / 2;
        (center_x, center_y)
    }

    /// Whether the closed extents overlap, edge-adjacency included.
    pub fn intersects(&self, other: &Rect) -> (r: bool)
        ensures
            r == self.spec_intersects(*other),
    {
        self.x1 <= other.x2 && self.x2 >= other.x1 && self.y1 <= other.y2 && self.y2 >= other.y1
    }
}

} // verus!
