//! A single cell of the dungeon grid.

use vstd::prelude::*;

verus! {

/// A tile of the dungeon grid: whether it blocks movement, whether it blocks
/// sight, and the persistent "has the player ever seen this" bit.
///
/// Tiles are created as walls; map generation carves some of them empty.
/// `explored` moves only from `false` to `true`, and only in the visibility
/// gate.
#[derive(Clone, Copy, Debug, PartialEq, Eq, Structural)]
pub struct Tile {
    pub blocked: bool,
    pub explored: bool,
    pub block_sight: bool,
}

impl Tile {
    /// A walkable, see-through floor tile, not yet explored.
    pub fn empty() -> (t: Tile)
        ensures
            t == (Tile { blocked: false, explored: false, block_sight: false }),
    {
        Tile { blocked: false, explored: false, block_sight: false }
    }

    /// An impassable, sight-blocking wall tile, not yet explored.
    pub fn wall() -> (t: Tile)
        ensures
            t == (Tile { blocked: true, explored: false, block_sight: true }),
    {
        Tile { blocked: true, explored: false, block_sight: true }
    }
}

} // verus!
