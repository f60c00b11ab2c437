//! Decisions the renderer needs from the core: which background colour a
//! tile state selects, in which order visible entities are drawn, what stands
//! under the mouse cursor, and which menu letter picks which entry. The
//! drawing itself is the presentation layer's business.

use vstd::prelude::*;

use crate::color::Color;
use crate::object::Object;
use crate::visibility::Fov;

verus! {

/// The background colour of a tile: visibility and wall-ness jointly select
/// one of four presentation states (dark wall, dark ground, lit wall, lit
/// ground).
pub fn tile_color(visible: bool, blocked: bool) -> (c: Color)
    ensures
        !visible && blocked ==> c == (Color { r: 0u8, g: 0u8, b: 100u8 }),
        !visible && !blocked ==> c == (Color { r: 50u8, g: 50u8, b: 150u8 }),
        visible && blocked ==> c == (Color { r: 130u8, g: 110u8, b: 50u8 }),
        visible && !blocked ==> c == (Color { r: 200u8, g: 180u8, b: 50u8 }),
{
    match (visible, blocked) {
        (false, true) => Color::new(0, 0, 100),
        (false, false) => Color::new(50, 50, 150),
        (true, true) => Color::new(130, 110, 50),
        (true, false) => Color::new(200, 180, 50),
    }
}

/// Whether entity `i` of the collection is drawn this frame: it must be in
/// the current field of view.
pub open spec fn spec_drawn(objects: Seq<Object>, fov: Fov, i: int) -> bool {
    fov.spec_visible(objects[i].x as int, objects[i].y as int)
}

/// The draw order splits at `split`: non-blocking entities strictly before
/// it, blocking ones strictly after, each side in collection order.
pub open spec fn spec_draw_split(objects: Seq<Object>, order: Seq<usize>, split: int) -> bool {
    &&& 0 <= split <= order.len()
    &&& forall|k: int|
        0 <= k < order.len() ==> !(#[trigger] objects[order[k] as int]).blocks == (k < split)
    &&& forall|k1: int, k2: int|
        (0 <= k1 < k2 < split || split <= k1 < k2 < order.len()) ==> (#[trigger] order[k1]) < (
        #[trigger] order[k2])
}

/// The order in which visible entities are drawn: every visible entity
/// exactly once, all non-blocking ones (items, remains) first and the
/// blocking ones (actors) after, each group in collection order, so that an
/// actor standing on remains is drawn on top of them.
pub fn draw_order(objects: &Vec<Object>, fov: &Fov) -> (order: Vec<usize>)
    requires
        fov.wf(),
        forall|i: int|
            0 <= i < objects@.len() ==> 0 <= (#[trigger] objects@[i]).x < fov.width && 0
                <= objects@[i].y < fov.height,
    ensures
        forall|k: int|
            0 <= k < order@.len() ==> (#[trigger] order@[k]) < objects@.len() && spec_drawn(
                objects@,
                *fov,
                order@[k] as int,
            ),
        forall|i: int|
            0 <= i < objects@.len() && spec_drawn(objects@, *fov, i) ==> exists|k: int|
                0 <= k < order@.len() && (#[trigger] order@[k]) == i,
        exists|split: int| #[trigger] spec_draw_split(objects@, order@, split),
{
    let mut order: Vec<usize> = Vec::new();
    let mut i: usize = 0;
    while i < objects.len()
        invariant
            i <= objects@.len(),
            fov.wf(),
            forall|ii: int|
                0 <= ii < objects@.len() ==> 0 <= (#[trigger] objects@[ii]).x < fov.width && 0
                    <= objects@[ii].y < fov.height,
            forall|k: int|
                0 <= k < order@.len() ==> (#[trigger] order@[k]) < i && spec_drawn(
                    objects@,
                    *fov,
                    order@[k] as int,
                ) && !objects@[order@[k] as int].blocks,
            forall|j: int|
                0 <= j < i && spec_drawn(objects@, *fov, j) && !(#[trigger] objects@[j]).blocks
                    ==> exists|k: int| 0 <= k < order@.len() && (#[trigger] order@[k]) == j,
            forall|k1: int, k2: int|
                0 <= k1 < k2 < order@.len() ==> (#[trigger] order@[k1]) < (#[trigger] order@[k2]),
        decreases objects@.len() - i,
    {
        let o = &objects[i];
        if !o.blocks && fov.is_visible(o.x, o.y) {
            let ghost pre = order@;
            order.push(i);
            proof {
                assert(forall|k: int| 0 <= k < pre.len() ==> order@[k] == pre[k]);
                assert(order@[pre.len() as int] == i);
            }
        }
        i = i + 1;
    }
    let ghost split = order@.len() as int;
    let mut i: usize = 0;
    while i < objects.len()
        invariant
            i <= objects@.len(),
            fov.wf(),
            forall|ii: int|
                0 <= ii < objects@.len() ==> 0 <= (#[trigger] objects@[ii]).x < fov.width && 0
                    <= objects@[ii].y < fov.height,
            0 <= split <= order@.len(),
            forall|k: int|
                0 <= k < split ==> (#[trigger] order@[k]) < objects@.len() && spec_drawn(
                    objects@,
                    *fov,
                    order@[k] as int,
                ) && !objects@[order@[k] as int].blocks,
            forall|j: int|
                0 <= j < objects@.len() && spec_drawn(objects@, *fov, j) && !(
                #[trigger] objects@[j]).blocks ==> exists|k: int|
                    0 <= k < split && (#[trigger] order@[k]) == j,
            forall|k: int|
                split <= k < order@.len() ==> (#[trigger] order@[k]) < i && spec_drawn(
                    objects@,
                    *fov,
                    order@[k] as int,
                ) && objects@[order@[k] as int].blocks,
            forall|j: int|
                0 <= j < i && spec_drawn(objects@, *fov, j) && (#[trigger] objects@[j]).blocks
                    ==> exists|k: int| split <= k < order@.len() && (#[trigger] order@[k]) == j,
            forall|k1: int, k2: int|
                (0 <= k1 < k2 < split || split <= k1 < k2 < order@.len()) ==> (
                #[trigger] order@[k1]) < (#[trigger] order@[k2]),
        decreases objects@.len() - i,
    {
        let o = &objects[i];
        if o.blocks && fov.is_visible(o.x, o.y) {
            let ghost pre = order@;
            order.push(i);
            proof {
                assert(forall|k: int| 0 <= k < pre.len() ==> order@[k] == pre[k]);
                assert(order@[pre.len() as int] == i);
            }
        }
        i = i + 1;
    }
    proof {
        assert(spec_draw_split(objects@, order@, split));
    }
    order
}

/// The indices of the entities standing at `(x, y)` and currently visible —
/// what a tooltip under the mouse cursor names — in collection order.
pub fn objects_under_mouse(x: i32, y: i32, objects: &Vec<Object>, fov: &Fov) -> (found: Vec<
    usize,
>)
    requires
        fov.wf(),
        forall|i: int|
            0 <= i < objects@.len() ==> 0 <= (#[trigger] objects@[i]).x < fov.width && 0
                <= objects@[i].y < fov.height,
    ensures
        forall|k: int|
            0 <= k < found@.len() ==> (#[trigger] found@[k]) < objects@.len()
                && objects@[found@[k] as int].x == x && objects@[found@[k] as int].y == y
                && spec_drawn(objects@, *fov, found@[k] as int),
        forall|i: int|
            0 <= i < objects@.len() && (#[trigger] objects@[i]).x == x && objects@[i].y == y
                && spec_drawn(objects@, *fov, i) ==> exists|k: int|
                0 <= k < found@.len() && (#[trigger] found@[k]) == i,
        forall|k1: int, k2: int|
            0 <= k1 < k2 < found@.len() ==> (#[trigger] found@[k1]) < (#[trigger] found@[k2]),
{
    let mut found: Vec<usize> = Vec::new();
    let mut i: usize = 0;
    while i < objects.len()
        invariant
            i <= objects@.len(),
            fov.wf(),
            forall|ii: int|
                0 <= ii < objects@.len() ==> 0 <= (#[trigger] objects@[ii]).x < fov.width && 0
                    <= objects@[ii].y < fov.height,
            forall|k: int|
                0 <= k < found@.len() ==> (#[trigger] found@[k]) < i && objects@[found@[k] as int].x
                    == x && objects@[found@[k] as int].y == y && spec_drawn(
                    objects@,
                    *fov,
                    found@[k] as int,
                ),
            forall|j: int|
                0 <= j < i && (#[trigger] objects@[j]).x == x && objects@[j].y == y && spec_drawn(
                    objects@,
                    *fov,
                    j,
                ) ==> exists|k: int| 0 <= k < found@.len() && (#[trigger] found@[k]) == j,
            forall|k1: int, k2: int|
                0 <= k1 < k2 < found@.len() ==> (#[trigger] found@[k1]) < (#[trigger] found@[k2]),
        decreases objects@.len() - i,
    {
        let o = &objects[i];
        if o.x == x && o.y == y && fov.is_visible(o.x, o.y) {
            let ghost pre = found@;
            found.push(i);
            proof {
                assert(forall|k: int| 0 <= k < pre.len() ==> found@[k] == pre[k]);
                assert(found@[pre.len() as int] == i);
            }
        }
        i = i + 1;
    }
    found
}

/// Which menu entry an ASCII letter key selects: `a` is entry 0, `b` entry 1,
/// and so on; anything else, or a letter past the last entry, selects
/// nothing. Menus hold at most 26 entries, one per letter.
pub fn menu_selection(letter: char, option_count: usize) -> (choice: Option<usize>)
    requires
        option_count <= 26,
    ensures
        ({
            let code = letter as int;
            let lower: int = if ('A' as int) <= code && code <= ('Z' as int) {
                code + 32
            } else {
                code
            };
            if ('a' as int) <= lower && lower <= ('z' as int) && lower - ('a' as int)
                < option_count {
                choice == Some((lower - ('a' as int)) as usize)
            } else {
                choice is None
            }
        }),
{
    let code = letter as u32;
    let lower: u32 = if code >= 65 && code <= 90 {
        code + 32
    } else {
        code
    };
    if lower >= 97 && lower <= 122 {
        let index = (lower - 97) as usize;
        if index < option_count {
            Some(index)
        } else {
            None
        }
    } else {
        None
    }
}

} // verus!
