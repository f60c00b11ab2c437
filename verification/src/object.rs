//! The entity model: every world object — player, monsters, items, corpses —
//! shares one representation, distinguished by which optional capabilities
//! (combat, reactive policy, item payload) are present.
//!
//! Occupancy has a single source of truth, `is_blocked`: a cell is blocked
//! when its tile is a wall or any movement-blocking entity stands on it.
//! Generation, player movement and monster movement all go through it.

use vstd::prelude::*;

use crate::color::Color;
use crate::gamemap::GameMap;
use crate::STAT_MAX;

verus! {

/// Combat capability: durability and melee statistics, and which death
/// transition fires when `hp` reaches zero.
#[derive(Clone, Copy, Debug, PartialEq, Eq, Structural)]
pub struct Fighter {
    pub max_hp: i32,
    pub hp: i32,
    pub defense: i32,
    pub power: i32,
    pub on_death: DeathCallback,
}

impl Fighter {
    /// Statistics in the range the core accepts: every stat bounded by
    /// `STAT_MAX`, `hp` never above `max_hp`, and `hp` never below one full
    /// overshoot, so damage arithmetic cannot overflow `i32`.
    pub open spec fn wf(self) -> bool {
        &&& 0 <= self.max_hp <= STAT_MAX
        &&& -STAT_MAX <= self.hp <= self.max_hp
        &&& 0 <= self.defense <= STAT_MAX
        &&& 0 <= self.power <= STAT_MAX
    }
}

/// Which death transition an entity runs when its hit points are exhausted:
/// a closed set, not an open-ended callback.
#[derive(Clone, Copy, Debug, PartialEq, Eq, Structural)]
pub enum DeathCallback {
    Player,
    Monster,
}

/// The one autonomous policy: approach the player and melee when adjacent.
#[derive(Clone, Copy, Debug, PartialEq, Eq, Structural)]
pub enum Ai {
    Basic,
}

/// The payload of a pick-up-able entity.
#[derive(Clone, Copy, Debug, PartialEq, Eq, Structural)]
pub enum Item {
    Heal,
}

/// A world object: position, presentation, movement-blocking flag, liveness,
/// and the optional capability set.
pub struct Object {
    pub x: i32,
    pub y: i32,
    pub glyph: char,
    pub color: Color,
    pub name: String,
    pub blocks: bool,
    pub alive: bool,
    pub fighter: Option<Fighter>,
    pub ai: Option<Ai>,
    pub item: Option<Item>,
}

/// `o` with its position replaced and every other field kept.
pub open spec fn at_position(o: Object, x: i32, y: i32) -> Object {
    Object { x, y, ..o }
}

/// Whether the cell `(x, y)` is invalid as a movement or placement
/// destination: a wall tile, or some movement-blocking entity stands there.
pub open spec fn spec_is_blocked(x: int, y: int, map: GameMap, objects: Seq<Object>) -> bool {
    map.spec_tile(x, y).blocked || exists|i: int|
        0 <= i < objects.len() && (#[trigger] objects[i]).blocks && objects[i].x == x
            && objects[i].y == y
}

/// The entity collection after `id` takes one step of `(dx, dy)`: unchanged
/// when the destination is blocked, else only `id`'s position moves.
pub open spec fn spec_move_by(
    objects: Seq<Object>,
    id: int,
    dx: int,
    dy: int,
    map: GameMap,
) -> Seq<Object> {
    let o = objects[id];
    let nx = (o.x + dx) as i32;
    let ny = (o.y + dy) as i32;
    if !spec_is_blocked(nx as int, ny as int, map, objects) {
        objects.update(id, at_position(o, nx, ny))
    } else {
        objects
    }
}

/// One axis of the chase step: the displacement vector `(d, e)` normalised by
/// its Euclidean length and `d`'s component rounded to the nearest of
/// -1, 0, 1. Rounding to magnitude one happens exactly when
/// `|d| / sqrt(d*d + e*e) >= 1/2`, that is when `3*d*d >= e*e`.
pub open spec fn spec_step(d: int, e: int) -> int {
    if 3 * d * d < e * e {
        0
    } else if d > 0 {
        1
    } else if d < 0 {
        -1
    } else {
        0
    }
}

impl Object {
    pub fn new(x: i32, y: i32, glyph: char, name: &str, color: Color, blocks: bool) -> (o: Object)
        ensures
            o.x == x,
            o.y == y,
            o.glyph == glyph,
            o.name@ == name@,
            o.color == color,
            o.blocks == blocks,
            !o.alive,
            o.fighter is None,
            o.ai is None,
            o.item is None,
    {
        Object {
            x,
            y,
            glyph,
            color,
            name: String::from_str(name),
            blocks,
            alive: false,
            fighter: None,
            ai: None,
            item: None,
        }
    }

    pub fn set_position(&mut self, x: i32, y: i32)
        ensures
            *final(self) == at_position(*old(self), x, y),
    {
        self.x = x;
        self.y = y;
    }

    pub fn position(&self) -> (p: (i32, i32))
        ensures
            p.0 == self.x,
            p.1 == self.y,
    {
        (self.x, self.y)
    }

    /// The square of the Euclidean distance to `other`. The chase policy
    /// compares distances only against constants, so the square is exact
    /// where the rounded floating-point distance would not be.
    pub fn distance_squared_to(&self, other: &Object) -> (d: i64)
        requires
            0 <= self.x <= 0x10000,
            0 <= self.y <= 0x10000,
            0 <= other.x <= 0x10000,
            0 <= other.y <= 0x10000,
        ensures
            d == (other.x - self.x) * (other.x - self.x) + (other.y - self.y) * (other.y
                - self.y),
    {
        let dx: i64 = other.x as i64 - self.x as i64;
        let dy: i64 = other.y as i64 - self.y as i64;
        proof {
            assert(0 <= dx * dx <= 0x10000 * 0x10000 && 0 <= dy * dy <= 0x10000 * 0x10000)
                by (nonlinear_arith)
                requires
                    -0x10000 <= dx <= 0x10000,
                    -0x10000 <= dy <= 0x10000,
            ;
        }
        dx * dx + dy * dy
    }

    /// Step entity `id` by one cell if and only if the destination is not
    /// blocked; bumping into a wall or another blocker is a silent no-op.
    /// After a performed move the destination tile is no wall and no other
    /// entity blocks it.
    pub fn move_by(id: usize, dx: i32, dy: i32, map: &GameMap, objects: &mut Vec<Object>)
        requires
            map.wf(),
            map.border_walls(),
            id < old(objects)@.len(),
            -1 <= dx <= 1,
            -1 <= dy <= 1,
            map.open_at(old(objects)@[id as int].x as int, old(objects)@[id as int].y as int),
        ensures
            final(objects)@ == spec_move_by(old(objects)@, id as int, dx as int, dy as int, *map),
            final(objects)@.len() == old(objects)@.len(),
            ({
                let o = old(objects)@[id as int];
                final(objects)@[id as int] != o ==> {
                    &&& map.in_bounds(o.x + dx, o.y + dy)
                    &&& !map.spec_tile(o.x + dx, o.y + dy).blocked
                    &&& forall|j: int|
                        0 <= j < old(objects)@.len() && j != id ==> !((#[trigger] final(
                            objects
                        )@[j]).blocks && final(objects)@[j].x == o.x + dx && final(objects)@[j].y
                            == o.y + dy)
                }
            }),
    {
        let (x, y) = objects[id].position();
        proof {
            // An open tile is never on the all-wall border, so a single step
            // stays inside the grid.
            assert(!(x == 0 || x == map.width - 1 || y == 0 || y == map.height - 1));
        }
        let new_x = x + dx;
        let new_y = y + dy;
        if !is_blocked(new_x, new_y, map, objects) {
            let o = &mut objects[id];
            o.set_position(new_x, new_y);
        }
    }

    /// Step entity `id` one cell towards `(target_x, target_y)`: the
    /// displacement is normalised to a unit step per axis (8-directional
    /// greedy stepping, not pathfinding — the step can be blocked by a wall
    /// corner and then nothing moves; a known, accepted limitation).
    pub fn move_towards(
        id: usize,
        target_x: i32,
        target_y: i32,
        map: &GameMap,
        objects: &mut Vec<Object>,
    )
        requires
            map.wf(),
            map.border_walls(),
            id < old(objects)@.len(),
            map.open_at(old(objects)@[id as int].x as int, old(objects)@[id as int].y as int),
            map.in_bounds(target_x as int, target_y as int),
            !(target_x == old(objects)@[id as int].x && target_y == old(objects)@[id as int].y),
        ensures
            ({
                let o = old(objects)@[id as int];
                let sx = spec_step(target_x - o.x, target_y - o.y);
                let sy = spec_step(target_y - o.y, target_x - o.x);
                &&& final(objects)@ == spec_move_by(old(objects)@, id as int, sx, sy, *map)
                &&& (final(objects)@[id as int] != o ==> map.in_bounds(o.x + sx, o.y + sy)
                    && !map.spec_tile(o.x + sx, o.y + sy).blocked)
            }),
    {
        let (x, y) = objects[id].position();
        let dx: i64 = target_x as i64 - x as i64;
        let dy: i64 = target_y as i64 - y as i64;
        proof {
            assert(0 <= dx * dx <= 0x10000 * 0x10000 && 0 <= dy * dy <= 0x10000 * 0x10000)
                by (nonlinear_arith)
                requires
                    -0x10000 <= dx <= 0x10000,
                    -0x10000 <= dy <= 0x10000,
            ;
        }
        let sq_x: i64 = dx * dx;
        let sq_y: i64 = dy * dy;
        proof {
            assert(3 * dx * dx == 3 * (dx * dx) && 3 * dy * dy == 3 * (dy * dy))
                by (nonlinear_arith);
        }
        let step_x: i32 = if 3 * sq_x >= sq_y {
            if dx > 0 {
                1
            } else if dx < 0 {
                -1
            } else {
                0
            }
        } else {
            0
        };
        let step_y: i32 = if 3 * sq_y >= sq_x {
            if dy > 0 {
                1
            } else if dy < 0 {
                -1
            } else {
                0
            }
        } else {
            0
        };
        Object::move_by(id, step_x, step_y, map, objects);
    }
}

/// Whether the cell `(x, y)` is a wall tile or holds a movement-blocking
/// entity. The single occupancy check used by movement and placement alike.
pub fn is_blocked(x: i32, y: i32, map: &GameMap, objects: &Vec<Object>) -> (b: bool)
    requires
        map.wf(),
        map.in_bounds(x as int, y as int),
    ensures
        b == spec_is_blocked(x as int, y as int, *map, objects@),
{
    if map.tile_at(x, y).blocked {
        return true;
    }
    let mut i: usize = 0;
    while i < objects.len()
        invariant
            i <= objects@.len(),
            forall|j: int|
                0 <= j < i ==> !((#[trigger] objects@[j]).blocks && objects@[j].x == x
                    && objects@[j].y == y),
        decreases objects@.len() - i,
    {
        let o = &objects[i];
        if o.blocks && o.x == x && o.y == y {
            return true;
        }
        i = i + 1;
    }
    false
}

/// Mutably borrow two distinct entities of the collection at once, by
/// partitioning the slice at the larger index. Both indices must be in range
/// and different — calling it otherwise is a caller bug, ruled out here
/// rather than checked at run time.
pub fn mut_two<T>(first_index: usize, second_index: usize, items: &mut [T]) -> (pair: (
    &mut T,
    &mut T,
))
    requires
        first_index != second_index,
        first_index < old(items)@.len(),
        second_index < old(items)@.len(),
    ensures
        *pair.0 == old(items)@[first_index as int],
        *pair.1 == old(items)@[second_index as int],
        final(items)@ == old(items)@.update(first_index as int, *final(pair.0)).update(
            second_index as int,
            *final(pair.1),
        ),
{
    let split_at_index = if first_index < second_index {
        second_index
    } else {
        first_index
    };
    let (first_slice, second_slice) = items.split_at_mut(split_at_index);
    if first_index < second_index {
        let (_, first_tail) = first_slice.split_at_mut(first_index);
        let a = first_tail.first_mut().unwrap();
        let b = second_slice.first_mut().unwrap();
        (a, b)
    } else {
        let (_, second_tail) = first_slice.split_at_mut(second_index);
        let b = second_tail.first_mut().unwrap();
        let a = second_slice.first_mut().unwrap();
        (a, b)
    }
}

} // verus!
