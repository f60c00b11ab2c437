//! The visibility gate. The field-of-view algorithm itself is an outside
//! capability: the caller supplies, for the player's position and the
//! opacity map, a grid of booleans saying which cells are currently in
//! sight. A new grid is needed only after the player moves, and the
//! persistent `explored` bit is owned here: once a tile has been seen it
//! stays renderable forever — a ratchet that is never reset.

use vstd::prelude::*;

use crate::gamemap::GameMap;
use crate::tile::Tile;

verus! {

/// One field-of-view result: for every cell of the grid, whether it is
/// currently visible from the player's position.
pub struct Fov {
    pub width: i32,
    pub height: i32,
    pub visible: Vec<Vec<bool>>,
}

impl Fov {
    /// Well-formed grid of the stated dimensions.
    pub open spec fn wf(self) -> bool {
        &&& 0 < self.width <= 0x10000
        &&& 0 < self.height <= 0x10000
        &&& self.visible@.len() == self.width
        &&& forall|x: int|
            0 <= x < self.width ==> (#[trigger] self.visible@[x])@.len() == self.height
    }

    /// Covers every cell of `map`.
    pub open spec fn wf_for(self, map: GameMap) -> bool {
        self.wf() && self.width == map.width && self.height == map.height
    }

    pub open spec fn spec_visible(self, x: int, y: int) -> bool {
        self.visible@[x]@[y]
    }

    /// A grid of the given dimensions with no cell visible.
    pub fn new(width: i32, height: i32) -> (fov: Fov)
        requires
            0 < width <= 0x10000,
            0 < height <= 0x10000,
        ensures
            fov.wf(),
            fov.width == width,
            fov.height == height,
            forall|x: int, y: int|
                0 <= x < width && 0 <= y < height ==> !#[trigger] fov.spec_visible(x, y),
    {
        let mut visible: Vec<Vec<bool>> = Vec::new();
        while visible.len() < width as usize
            invariant
                visible@.len() <= width,
                0 < width <= 0x10000,
                0 < height <= 0x10000,
                forall|x: int|
                    0 <= x < visible@.len() ==> (#[trigger] visible@[x])@.len() == height,
                forall|x: int, y: int|
                    0 <= x < visible@.len() && 0 <= y < height ==> !#[trigger] visible@[x]@[y],
            decreases width - visible@.len(),
        {
            let mut column: Vec<bool> = Vec::new();
            while column.len() < height as usize
                invariant
                    column@.len() <= height,
                    0 < height <= 0x10000,
                    forall|y: int| 0 <= y < column@.len() ==> !(#[trigger] column@[y]),
                decreases height - column@.len(),
            {
                column.push(false);
            }
            visible.push(column);
        }
        Fov { width, height, visible }
    }

    /// Record whether one cell is visible.
    pub fn set(&mut self, x: i32, y: i32, value: bool)
        requires
            old(self).wf(),
            0 <= x < old(self).width,
            0 <= y < old(self).height,
        ensures
            final(self).wf(),
            final(self).width == old(self).width,
            final(self).height == old(self).height,
            final(self).spec_visible(x as int, y as int) == value,
            forall|i: int, j: int|
                0 <= i < old(self).width && 0 <= j < old(self).height && !(i == x && j == y)
                    ==> #[trigger] final(self).spec_visible(i, j) == old(self).spec_visible(i, j),
    {
        let column = &mut self.visible[x as usize];
        column[y as usize] = value;
    }

    /// Whether the cell is currently visible.
    pub fn is_visible(&self, x: i32, y: i32) -> (v: bool)
        requires
            self.wf(),
            0 <= x < self.width,
            0 <= y < self.height,
        ensures
            v == self.spec_visible(x as int, y as int),
    {
        self.visible[x as usize][y as usize]
    }
}

/// Whether the field of view must be recomputed this turn: exactly when the
/// player's position differs from the one recorded last turn. Recomputing
/// every turn would be correct but wasteful.
pub fn needs_fov_recompute(previous: (i32, i32), current: (i32, i32)) -> (r: bool)
    ensures
        r == (previous != current),
{
    previous.0 != current.0 || previous.1 != current.1
}

/// Ratchet the `explored` bits: every currently visible tile becomes
/// explored, and no tile ever loses its explored bit — a tile once seen stays
/// seen, whatever later turns bring.
pub fn update_explored(map: &mut GameMap, fov: &Fov)
    requires
        old(map).wf(),
        fov.wf_for(*old(map)),
    ensures
        final(map).wf(),
        final(map).same_dims(*old(map)),
        forall|x: int, y: int|
            old(map).in_bounds(x, y) ==> #[trigger] final(map).spec_tile(x, y) == (Tile {
                explored: old(map).spec_tile(x, y).explored || fov.spec_visible(x, y),
                ..old(map).spec_tile(x, y)
            }),
        forall|x: int, y: int|
            old(map).in_bounds(x, y) && old(map).spec_tile(x, y).explored ==> (
            #[trigger] final(map).spec_tile(x, y)).explored,
{
    let width = map.width;
    let height = map.height;
    let mut x: i32 = 0;
    while x < width
        invariant
            0 <= x <= width,
            map.wf(),
            map.width == width,
            map.height == height,
            fov.wf_for(*old(map)),
            old(map).width == width,
            old(map).height == height,
            forall|i: int, j: int|
                old(map).in_bounds(i, j) ==> #[trigger] map.spec_tile(i, j) == if i < x {
                    (Tile {
                        explored: old(map).spec_tile(i, j).explored || fov.spec_visible(i, j),
                        ..old(map).spec_tile(i, j)
                    })
                } else {
                    old(map).spec_tile(i, j)
                },
        decreases width - x,
    {
        let mut y: i32 = 0;
        while y < height
            invariant
                0 <= x < width,
                0 <= y <= height,
                map.wf(),
                map.width == width,
                map.height == height,
                fov.wf_for(*old(map)),
                old(map).width == width,
                old(map).height == height,
                forall|i: int, j: int|
                    old(map).in_bounds(i, j) ==> #[trigger] map.spec_tile(i, j) == if i < x || (i
                        == x && j < y) {
                        (Tile {
                            explored: old(map).spec_tile(i, j).explored || fov.spec_visible(i, j),
                            ..old(map).spec_tile(i, j)
                        })
                    } else {
                        old(map).spec_tile(i, j)
                    },
            decreases height - y,
        {
            if fov.is_visible(x, y) {
                let tile = map.tile_at(x, y);
                map.set_tile(x, y, Tile { explored: true, ..tile });
            }
            y = y + 1;
        }
        x = x + 1;
    }
}

} // verus!
