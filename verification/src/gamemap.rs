//! The dungeon grid: a fixed-size field of tiles, and the carving operations
//! map generation uses to open rooms and tunnels in it.

use vstd::prelude::*;

use crate::geometry::Rect;
use crate::tile::Tile;

verus! {

/// The dungeon map: `width` by `height` tiles, column-major (`tiles[x][y]`).
/// Dimensions are fixed for a session.
pub struct GameMap {
    pub width: i32,
    pub height: i32,
    pub tiles: Vec<Vec<Tile>>,
}

impl GameMap {
    /// Well-formed grid: positive dimensions small enough that coordinate
    /// arithmetic stays far from overflow, and a tile column of the stated
    /// height for every x.
    pub open spec fn wf(self) -> bool {
        &&& 0 < self.width <= 0x10000
        &&& 0 < self.height <= 0x10000
        &&& self.tiles@.len() == self.width
        &&& forall|x: int| 0 <= x < self.width ==> (#[trigger] self.tiles@[x])@.len() == self.height
    }

    pub open spec fn in_bounds(self, x: int, y: int) -> bool {
        0 <= x < self.width && 0 <= y < self.height
    }

    /// The tile at `(x, y)`.
    pub open spec fn spec_tile(self, x: int, y: int) -> Tile {
        self.tiles@[x]@[y]
    }

    /// An in-bounds cell an actor could stand on.
    pub open spec fn open_at(self, x: int, y: int) -> bool {
        self.in_bounds(x, y) && !self.spec_tile(x, y).blocked
    }

    /// The outermost ring of the grid is all wall; movement by single steps
    /// from open cells can then never leave the grid.
    pub open spec fn border_walls(self) -> bool {
        forall|x: int, y: int|
            self.in_bounds(x, y) && (x == 0 || x == self.width - 1 || y == 0 || y == self.height
                - 1) ==> (#[trigger] self.spec_tile(x, y)).blocked
    }

    /// Same dimensions as `other`.
    pub open spec fn same_dims(self, other: GameMap) -> bool {
        self.width == other.width && self.height == other.height
    }

    /// A fresh map of the given dimensions with every tile a wall.
    pub fn new(width: i32, height: i32) -> (m: GameMap)
        requires
            0 < width <= 0x10000,
            0 < height <= 0x10000,
        ensures
            m.wf(),
            m.width == width,
            m.height == height,
            forall|x: int, y: int|
                m.in_bounds(x, y) ==> #[trigger] m.spec_tile(x, y) == (Tile {
                    blocked: true,
                    explored: false,
                    block_sight: true,
                }),
    {
        let mut tiles: Vec<Vec<Tile>> = Vec::new();
        while tiles.len() < width as usize
            invariant
                tiles@.len() <= width,
                0 < width <= 0x10000,
                0 < height <= 0x10000,
                forall|x: int|
                    0 <= x < tiles@.len() ==> (#[trigger] tiles@[x])@.len() == height,
                forall|x: int, y: int|
                    0 <= x < tiles@.len() && 0 <= y < height ==> #[trigger] tiles@[x]@[y] == (
                    Tile { blocked: true, explored: false, block_sight: true }),
            decreases width - tiles@.len(),
        {
            let mut column: Vec<Tile> = Vec::new();
            while column.len() < height as usize
                invariant
                    column@.len() <= height,
                    0 < height <= 0x10000,
                    forall|y: int|
                        0 <= y < column@.len() ==> column@[y] == (Tile {
                            blocked: true,
                            explored: false,
                            block_sight: true,
                        }),
                decreases height - column@.len(),
            {
                column.push(Tile::wall());
            }
            tiles.push(column);
        }
        GameMap { width, height, tiles }
    }

    /// Read the tile at `(x, y)`.
    pub fn tile_at(&self, x: i32, y: i32) -> (t: Tile)
        requires
            self.wf(),
            self.in_bounds(x as int, y as int),
        ensures
            t == self.spec_tile(x as int, y as int),
    {
        self.tiles[x as usize][y as usize]
    }

    /// Replace the tile at `(x, y)`, leaving every other tile as it was.
    pub fn set_tile(&mut self, x: i32, y: i32, t: Tile)
        requires
            old(self).wf(),
            old(self).in_bounds(x as int, y as int),
        ensures
            final(self).wf(),
            final(self).same_dims(*old(self)),
            final(self).spec_tile(x as int, y as int) == t,
            forall|i: int, j: int|
                old(self).in_bounds(i, j) && !(i == x && j == y) ==> final(self).spec_tile(i, j)
                    == old(self).spec_tile(i, j),
    {
        let column = &mut self.tiles[x as usize];
        column[y as usize] = t;
    }
}

/// Carve the interior of `room` empty. Cells outside the interior, the room's
/// one-cell wall ring included, are untouched.
pub fn create_room(room: Rect, map: &mut GameMap)
    requires
        old(map).wf(),
        room.wf(),
        room.x2 < old(map).width,
        room.y2 < old(map).height,
    ensures
        final(map).wf(),
        final(map).same_dims(*old(map)),
        forall|i: int, j: int|
            old(map).in_bounds(i, j) ==> #[trigger] final(map).spec_tile(i, j) == if room.spec_interior(
                i,
                j,
            ) {
                (Tile { blocked: false, explored: false, block_sight: false })
            } else {
                old(map).spec_tile(i, j)
            },
{
    let mut x = room.x1 + 1;
    while x < room.x2
        invariant
            room.x1 + 1 <= x <= room.x2,
            map.wf(),
            map.same_dims(*old(map)),
            room.wf(),
            room.x2 < map.width,
            room.y2 < map.height,
            forall|i: int, j: int|
                old(map).in_bounds(i, j) ==> #[trigger] map.spec_tile(i, j) == if room.spec_interior(
                    i,
                    j,
                ) && i < x {
                    (Tile { blocked: false, explored: false, block_sight: false })
                } else {
                    old(map).spec_tile(i, j)
                },
        decreases room.x2 - x,
    {
        let mut y = room.y1 + 1;
        while y < room.y2
            invariant
                room.x1 + 1 <= x < room.x2,
                room.y1 + 1 <= y <= room.y2,
                map.wf(),
                map.same_dims(*old(map)),
                room.wf(),
                room.x2 < map.width,
                room.y2 < map.height,
                forall|i: int, j: int|
                    old(map).in_bounds(i, j) ==> #[trigger] map.spec_tile(i, j) == if room.spec_interior(
                        i,
                        j,
                    ) && (i < x || (i == x && j < y)) {
                        (Tile { blocked: false, explored: false, block_sight: false })
                    } else {
                        old(map).spec_tile(i, j)
                    },
            decreases room.y2 - y,
        {
            map.set_tile(x, y, Tile::empty());
            y = y + 1;
        }
        x = x + 1;
    }
}

/// Carve a one-tile-high horizontal tunnel at row `y`, spanning from
/// `min(x1, x2)` to `max(x1, x2)`, both endpoints included.
pub fn create_h_tunnel(x1: i32, x2: i32, y: i32, map: &mut GameMap)
    requires
        old(map).wf(),
        0 <= x1 < old(map).width,
        0 <= x2 < old(map).width,
        0 <= y < old(map).height,
    ensures
        final(map).wf(),
        final(map).same_dims(*old(map)),
        forall|i: int, j: int|
            old(map).in_bounds(i, j) ==> #[trigger] final(map).spec_tile(i, j) == if j == y
                && vstd::math::min(x1 as int, x2 as int) <= i <= vstd::math::max(
                x1 as int,
                x2 as int,
            ) {
                (Tile { blocked: false, explored: false, block_sight: false })
            } else {
                old(map).spec_tile(i, j)
            },
{
    let lo = if x1 < x2 { x1 } else { x2 };
    let hi = if x1 < x2 { x2 } else { x1 };
    let mut x = lo;
    while x <= hi
        invariant
            lo == vstd::math::min(x1 as int, x2 as int),
            hi == vstd::math::max(x1 as int, x2 as int),
            lo <= x <= hi + 1,
            map.wf(),
            map.same_dims(*old(map)),
            0 <= lo,
            hi < map.width,
            0 <= y < map.height,
            forall|i: int, j: int|
                old(map).in_bounds(i, j) ==> #[trigger] map.spec_tile(i, j) == if j == y && lo <= i
                    < x {
                    (Tile { blocked: false, explored: false, block_sight: false })
                } else {
                    old(map).spec_tile(i, j)
                },
        decreases hi + 1 - x,
    {
        map.set_tile(x, y, Tile::empty());
        x = x + 1;
    }
}

/// Carve a one-tile-wide vertical tunnel at column `x`, spanning from
/// `min(y1, y2)` to `max(y1, y2)`, both endpoints included.
pub fn create_v_tunnel(y1: i32, y2: i32, x: i32, map: &mut GameMap)
    requires
        old(map).wf(),
        0 <= y1 < old(map).height,
        0 <= y2 < old(map).height,
        0 <= x < old(map).width,
    ensures
        final(map).wf(),
        final(map).same_dims(*old(map)),
        forall|i: int, j: int|
            old(map).in_bounds(i, j) ==> #[trigger] final(map).spec_tile(i, j) == if i == x
                && vstd::math::min(y1 as int, y2 as int) <= j <= vstd::math::max(
                y1 as int,
                y2 as int,
            ) {
                (Tile { blocked: false, explored: false, block_sight: false })
            } else {
                old(map).spec_tile(i, j)
            },
{
    let lo = if y1 < y2 { y1 } else { y2 };
    let hi = if y1 < y2 { y2 } else { y1 };
    let mut y = lo;
    while y <= hi
        invariant
            lo == vstd::math::min(y1 as int, y2 as int),
            hi == vstd::math::max(y1 as int, y2 as int),
            lo <= y <= hi + 1,
            map.wf(),
            map.same_dims(*old(map)),
            0 <= lo,
            hi < map.height,
            0 <= x < map.width,
            forall|i: int, j: int|
                old(map).in_bounds(i, j) ==> #[trigger] map.spec_tile(i, j) == if i == x && lo <= j
                    < y {
                    (Tile { blocked: false, explored: false, block_sight: false })
                } else {
                    old(map).spec_tile(i, j)
                },
        decreases hi + 1 - y,
    {
        map.set_tile(x, y, Tile::empty());
        y = y + 1;
    }
}

} // verus!
