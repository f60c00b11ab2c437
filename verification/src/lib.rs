//! Simulation core of a turn-based, grid-world dungeon game: procedural map
//! generation, a visibility gate over an injected field-of-view capability,
//! and a turn-resolution loop with melee combat and a reactive chase policy.
//!
//! Rendering, keyboard input and the field-of-view algorithm itself are
//! outside collaborators: the core consumes their results as plain values.

use vstd::prelude::*;

pub mod color;
pub mod combat;
pub mod connect;
pub mod gamemap;
pub mod geometry;
pub mod mapgen;
pub mod object;
pub mod render;
pub mod rng;
pub mod text;
pub mod tile;
pub mod turn;
pub mod visibility;

verus! {

/// Width of the dungeon grid, in tiles.
pub const MAP_WIDTH: i32 = 80;

/// Height of the dungeon grid, in tiles.
pub const MAP_HEIGHT: i32 = 43;

/// Largest side length of a generated room, walls included.
pub const ROOM_MAX_SIZE: i32 = 10;

/// Smallest side length of a generated room, walls included.
pub const ROOM_MIN_SIZE: i32 = 6;

/// Number of room placements attempted per map; overlapping attempts are
/// skipped, so fewer rooms may be accepted.
pub const MAX_ROOMS: i32 = 30;

/// Most monsters placed in a single room (inclusive bound on the draw).
pub const MAX_ROOM_MONSTERS: i32 = 3;

/// Most items placed in a single room (exclusive bound on the draw).
pub const MAX_ROOM_ITEMS: i32 = 2;

/// Index of the player in the world's entity collection, by convention.
pub const PLAYER: usize = 0;

/// How many entities the player's inventory can hold (one per menu letter).
pub const INVENTORY_CAPACITY: usize = 26;

/// Upper bound on every combat statistic the core accepts; keeps all damage
/// arithmetic far away from `i32` overflow.
pub const STAT_MAX: i32 = 1000;

} // verus!
