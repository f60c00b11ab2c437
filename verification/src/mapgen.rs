//! The map generator and the populator: carve up to `MAX_ROOMS` random,
//! non-overlapping rooms joined by L-shaped tunnels, spawn the player at the
//! first room's center, and stock each room with monsters and items as it is
//! accepted.

use vstd::prelude::*;

use crate::color::Color;
use crate::connect::{connected, lemma_connected_mono, lemma_connected_refl, lemma_connected_trans,
    lemma_h_run_connected, lemma_v_run_connected};
use crate::gamemap::{create_h_tunnel, create_room, create_v_tunnel, GameMap};
use crate::geometry::Rect;
use crate::object::{at_position, is_blocked, Ai, DeathCallback, Fighter, Item,
    Object};
use crate::rng::{rand_bool, rand_range_exclusive, rand_range_inclusive, rand_ratio};
use crate::tile::Tile;
use crate::{MAP_HEIGHT, MAP_WIDTH, MAX_ROOMS, MAX_ROOM_ITEMS, MAX_ROOM_MONSTERS, PLAYER,
    ROOM_MAX_SIZE, ROOM_MIN_SIZE};

verus! {

/// Every entity stands on an in-bounds, non-wall tile of `map`.
pub open spec fn spec_objects_on_open(map: GameMap, objects: Seq<Object>) -> bool {
    forall|i: int|
        0 <= i < objects.len() ==> map.open_at(
            (#[trigger] objects[i]).x as int,
            objects[i].y as int,
        )
}

/// The common monster archetype: a weak melee fighter with the reactive
/// policy.
pub open spec fn spec_is_orc(o: Object) -> bool {
    &&& o.glyph == 'o'
    &&& o.name@ == "Orc"@
    &&& o.color == (Color { r: 63u8, g: 127u8, b: 63u8 })
    &&& o.blocks
    &&& o.alive
    &&& o.fighter == Some(
        Fighter {
            max_hp: 10i32,
            hp: 10i32,
            defense: 0i32,
            power: 3i32,
            on_death: DeathCallback::Monster,
        },
    )
    &&& o.ai == Some(Ai::Basic)
    &&& o.item is None
}

/// The rare monster archetype: tougher and harder-hitting.
pub open spec fn spec_is_troll(o: Object) -> bool {
    &&& o.glyph == 'T'
    &&& o.name@ == "Troll"@
    &&& o.color == (Color { r: 0u8, g: 127u8, b: 0u8 })
    &&& o.blocks
    &&& o.alive
    &&& o.fighter == Some(
        Fighter {
            max_hp: 16i32,
            hp: 16i32,
            defense: 1i32,
            power: 4i32,
            on_death: DeathCallback::Monster,
        },
    )
    &&& o.ai == Some(Ai::Basic)
    &&& o.item is None
}

/// The one item archetype: a healing potion lying on the ground, which never
/// blocks movement.
pub open spec fn spec_is_potion(o: Object) -> bool {
    &&& o.glyph == '!'
    &&& o.name@ == "Healing potion"@
    &&& o.color == (Color { r: 127u8, g: 0u8, b: 255u8 })
    &&& !o.blocks
    &&& !o.alive
    &&& o.fighter is None
    &&& o.ai is None
    &&& o.item == Some(Item::Heal)
}

/// One of the three archetypes the populator creates.
pub open spec fn spec_is_archetype(o: Object) -> bool {
    spec_is_orc(o) || spec_is_troll(o) || spec_is_potion(o)
}

/// Entity `k` of the collection was placed legally for `room` on `map`:
/// strictly inside the room, on a floor tile, and on no cell that an earlier
/// movement-blocking entity already occupies.
pub open spec fn spec_placed_ok(objects: Seq<Object>, k: int, room: Rect, map: GameMap) -> bool {
    let o = objects[k];
    &&& room.spec_interior(o.x as int, o.y as int)
    &&& !map.spec_tile(o.x as int, o.y as int).blocked
    &&& forall|j: int|
        0 <= j < k ==> !((#[trigger] objects[j]).blocks && objects[j].x == o.x && objects[j].y
            == o.y)
    &&& spec_is_archetype(o)
}

/// Stock `room` with a random number of monsters (weighted between the two
/// archetypes) and items, skipping — not retrying — draws that land on an
/// occupied or blocked cell. Existing entities are never touched.
pub fn place_objects(room: Rect, map: &GameMap, objects: &mut Vec<Object>)
    requires
        map.wf(),
        room.wf(),
        room.x2 < map.width,
        room.y2 < map.height,
    ensures
        final(objects)@.len() >= old(objects)@.len(),
        final(objects)@.len() <= old(objects)@.len() + MAX_ROOM_MONSTERS + MAX_ROOM_ITEMS - 1,
        forall|i: int|
            0 <= i < old(objects)@.len() ==> final(objects)@[i] == old(objects)@[i],
        forall|k: int|
            old(objects)@.len() <= k < final(objects)@.len() ==> spec_placed_ok(
                final(objects)@,
                k,
                room,
                *map,
            ),
{
    let ghost base = objects@;
    let num_monsters = rand_range_inclusive(0, MAX_ROOM_MONSTERS);
    let mut n: i32 = 0;
    while n < num_monsters
        invariant
            map.wf(),
            room.wf(),
            room.x2 < map.width,
            room.y2 < map.height,
            0 <= n <= num_monsters,
            num_monsters <= MAX_ROOM_MONSTERS,
            objects@.len() >= base.len(),
            objects@.len() <= base.len() + n,
            forall|i: int| 0 <= i < base.len() ==> objects@[i] == base[i],
            forall|k: int|
                base.len() <= k < objects@.len() ==> spec_placed_ok(objects@, k, room, *map),
        decreases num_monsters - n,
    {
        let x = rand_range_exclusive(room.x1 + 1, room.x2);
        let y = rand_range_exclusive(room.y1 + 1, room.y2);
        if !is_blocked(x, y, map, objects) {
            let mut monster = if rand_ratio(4, 5) {
                let mut orc = Object::new(x, y, 'o', "Orc", Color::desaturated_green(), true);
                orc.fighter = Some(
                    Fighter {
                        max_hp: 10,
                        hp: 10,
                        defense: 0,
                        power: 3,
                        on_death: DeathCallback::Monster,
                    },
                );
                orc.ai = Some(Ai::Basic);
                orc
            } else {
                let mut troll = Object::new(x, y, 'T', "Troll", Color::darker_green(), true);
                troll.fighter = Some(
                    Fighter {
                        max_hp: 16,
                        hp: 16,
                        defense: 1,
                        power: 4,
                        on_death: DeathCallback::Monster,
                    },
                );
                troll.ai = Some(Ai::Basic);
                troll
            };
            monster.alive = true;
            let ghost pre = objects@;
            objects.push(monster);
            proof {
                assert(forall|j: int| 0 <= j < pre.len() ==> objects@[j] == pre[j]);
                assert(spec_placed_ok(objects@, pre.len() as int, room, *map));
                assert forall|k: int|
                    base.len() <= k < pre.len() implies spec_placed_ok(
                    objects@,
                    k,
                    room,
                    *map,
                ) by {
                    assert(spec_placed_ok(pre, k, room, *map));
                }
            }
        }
        n = n + 1;
    }
    let ghost after_monsters = objects@.len();
    let num_items = rand_range_exclusive(0, MAX_ROOM_ITEMS);
    let mut n: i32 = 0;
    while n < num_items
        invariant
            map.wf(),
            room.wf(),
            room.x2 < map.width,
            room.y2 < map.height,
            0 <= n <= num_items,
            num_items <= MAX_ROOM_ITEMS - 1,
            after_monsters <= base.len() + MAX_ROOM_MONSTERS,
            objects@.len() >= base.len(),
            objects@.len() <= after_monsters + n,
            forall|i: int| 0 <= i < base.len() ==> objects@[i] == base[i],
            forall|k: int|
                base.len() <= k < objects@.len() ==> spec_placed_ok(objects@, k, room, *map),
        decreases num_items - n,
    {
        let x = rand_range_exclusive(room.x1 + 1, room.x2);
        let y = rand_range_exclusive(room.y1 + 1, room.y2);
        if !is_blocked(x, y, map, objects) {
            let mut potion = Object::new(x, y, '!', "Healing potion", Color::violet(), false);
            potion.item = Some(Item::Heal);
            let ghost pre = objects@;
            objects.push(potion);
            proof {
                assert(forall|j: int| 0 <= j < pre.len() ==> objects@[j] == pre[j]);
                assert(spec_placed_ok(objects@, pre.len() as int, room, *map));
                assert forall|k: int|
                    base.len() <= k < pre.len() implies spec_placed_ok(
                    objects@,
                    k,
                    room,
                    *map,
                ) by {
                    assert(spec_placed_ok(pre, k, room, *map));
                }
            }
        }
        n = n + 1;
    }
}

/// The cells an L-shaped tunnel between the centers of `a` and `b` may
/// carve, whichever bend the coin flip picks: a horizontal run at either
/// center's row spanning their columns, or a vertical run at either center's
/// column spanning their rows, endpoints included.
pub open spec fn spec_l_corridor(a: Rect, b: Rect, x: int, y: int) -> bool {
    let pa = a.spec_center();
    let pb = b.spec_center();
    ||| ((y == pa.1 || y == pb.1) && vstd::math::min(pa.0, pb.0) <= x <= vstd::math::max(
        pa.0,
        pb.0,
    ))
    ||| ((x == pa.0 || x == pb.0) && vstd::math::min(pa.1, pb.1) <= y <= vstd::math::max(
        pa.1,
        pb.1,
    ))
}

/// The cells generation is allowed to open: some accepted room's interior,
/// or the corridor dug between a consecutive pair of accepted rooms. Every
/// other cell of a generated map is still the wall it started as.
pub open spec fn spec_carved(rooms: Seq<Rect>, x: int, y: int) -> bool {
    ||| exists|i: int| 0 <= i < rooms.len() && (#[trigger] rooms[i]).spec_interior(x, y)
    ||| exists|i: int|
        1 <= i < rooms.len() && spec_l_corridor(rooms[i - 1], #[trigger] rooms[i], x, y)
}

/// Join the centers of two accepted rooms with one L-shaped tunnel, the bend
/// direction (horizontal-then-vertical or the reverse) chosen by a coin
/// flip. Carving only opens tiles — nothing open before is walled off — the
/// all-wall border survives, no cell off the corridor between the two
/// centers is touched, and afterwards the two centers are connected over
/// open cells.
fn connect_rooms(prev: Rect, new_room: Rect, map: &mut GameMap)
    requires
        old(map).wf(),
        old(map).border_walls(),
        prev.wf(),
        new_room.wf(),
        0 <= prev.x1,
        prev.x2 < old(map).width,
        0 <= prev.y1,
        prev.y2 < old(map).height,
        0 <= new_room.x1,
        new_room.x2 < old(map).width,
        0 <= new_room.y1,
        new_room.y2 < old(map).height,
    ensures
        final(map).wf(),
        final(map).same_dims(*old(map)),
        final(map).border_walls(),
        forall|x: int, y: int| #[trigger] old(map).open_at(x, y) ==> final(map).open_at(x, y),
        forall|x: int, y: int|
            old(map).in_bounds(x, y) && !spec_l_corridor(prev, new_room, x, y)
                ==> #[trigger] final(map).spec_tile(x, y) == old(map).spec_tile(x, y),
        connected(*final(map), prev.spec_center(), new_room.spec_center()),
{
    let ghost map0 = *map;
    let (prev_x, prev_y) = prev.center();
    let (new_x, new_y) = new_room.center();
    proof {
        assert(1 <= prev_x as int <= map.width - 2 && 1 <= prev_y as int <= map.height - 2);
        assert(1 <= new_x as int <= map.width - 2 && 1 <= new_y as int <= map.height - 2);
    }
    if rand_bool() {
        create_h_tunnel(prev_x, new_x, prev_y, map);
        let ghost map1 = *map;
        create_v_tunnel(prev_y, new_y, new_x, map);
        proof {
            assert forall|xx: int, yy: int|
                map0.in_bounds(xx, yy) implies (#[trigger] map.spec_tile(xx, yy))
                == map0.spec_tile(xx, yy) || !map.spec_tile(xx, yy).blocked by {
                assert(map1.spec_tile(xx, yy) == if yy == prev_y && vstd::math::min(
                    prev_x as int,
                    new_x as int,
                ) <= xx <= vstd::math::max(prev_x as int, new_x as int) {
                    (Tile { blocked: false, explored: false, block_sight: false })
                } else {
                    map0.spec_tile(xx, yy)
                });
            }
            assert forall|xx: int|
                vstd::math::min(prev_x as int, new_x as int) <= xx <= vstd::math::max(
                    prev_x as int,
                    new_x as int,
                ) implies #[trigger] map.open_at(xx, prev_y as int) by {
                assert(map1.open_at(xx, prev_y as int));
            }
            assert forall|yy: int|
                vstd::math::min(prev_y as int, new_y as int) <= yy <= vstd::math::max(
                    prev_y as int,
                    new_y as int,
                ) implies #[trigger] map.open_at(new_x as int, yy) by {
                assert(map.spec_tile(new_x as int, yy) == (Tile {
                    blocked: false,
                    explored: false,
                    block_sight: false,
                }));
            }
            assert forall|xx: int, yy: int|
                map0.in_bounds(xx, yy) && !spec_l_corridor(prev, new_room, xx, yy) implies (
            #[trigger] map.spec_tile(xx, yy)) == map0.spec_tile(xx, yy) by {
                assert(map1.spec_tile(xx, yy) == if yy == prev_y && vstd::math::min(
                    prev_x as int,
                    new_x as int,
                ) <= xx <= vstd::math::max(prev_x as int, new_x as int) {
                    (Tile { blocked: false, explored: false, block_sight: false })
                } else {
                    map0.spec_tile(xx, yy)
                });
                assert(map.spec_tile(xx, yy) == if xx == new_x && vstd::math::min(
                    prev_y as int,
                    new_y as int,
                ) <= yy <= vstd::math::max(prev_y as int, new_y as int) {
                    (Tile { blocked: false, explored: false, block_sight: false })
                } else {
                    map1.spec_tile(xx, yy)
                });
            }
            lemma_h_run_connected(*map, prev_x as int, new_x as int, prev_y as int);
            lemma_v_run_connected(*map, prev_y as int, new_y as int, new_x as int);
            lemma_connected_trans(
                *map,
                (prev_x as int, prev_y as int),
                (new_x as int, prev_y as int),
                (new_x as int, new_y as int),
            );
        }
    } else {
        create_v_tunnel(prev_y, new_y, prev_x, map);
        let ghost map1 = *map;
        create_h_tunnel(prev_x, new_x, new_y, map);
        proof {
            assert forall|xx: int, yy: int|
                map0.in_bounds(xx, yy) implies (#[trigger] map.spec_tile(xx, yy))
                == map0.spec_tile(xx, yy) || !map.spec_tile(xx, yy).blocked by {
                assert(map1.spec_tile(xx, yy) == if xx == prev_x && vstd::math::min(
                    prev_y as int,
                    new_y as int,
                ) <= yy <= vstd::math::max(prev_y as int, new_y as int) {
                    (Tile { blocked: false, explored: false, block_sight: false })
                } else {
                    map0.spec_tile(xx, yy)
                });
            }
            assert forall|yy: int|
                vstd::math::min(prev_y as int, new_y as int) <= yy <= vstd::math::max(
                    prev_y as int,
                    new_y as int,
                ) implies #[trigger] map.open_at(prev_x as int, yy) by {
                assert(map1.open_at(prev_x as int, yy));
            }
            assert forall|xx: int|
                vstd::math::min(prev_x as int, new_x as int) <= xx <= vstd::math::max(
                    prev_x as int,
                    new_x as int,
                ) implies #[trigger] map.open_at(xx, new_y as int) by {
                assert(map.spec_tile(xx, new_y as int) == (Tile {
                    blocked: false,
                    explored: false,
                    block_sight: false,
                }));
            }
            assert forall|xx: int, yy: int|
                map0.in_bounds(xx, yy) && !spec_l_corridor(prev, new_room, xx, yy) implies (
            #[trigger] map.spec_tile(xx, yy)) == map0.spec_tile(xx, yy) by {
                assert(map1.spec_tile(xx, yy) == if xx == prev_x && vstd::math::min(
                    prev_y as int,
                    new_y as int,
                ) <= yy <= vstd::math::max(prev_y as int, new_y as int) {
                    (Tile { blocked: false, explored: false, block_sight: false })
                } else {
                    map0.spec_tile(xx, yy)
                });
                assert(map.spec_tile(xx, yy) == if yy == new_y && vstd::math::min(
                    prev_x as int,
                    new_x as int,
                ) <= xx <= vstd::math::max(prev_x as int, new_x as int) {
                    (Tile { blocked: false, explored: false, block_sight: false })
                } else {
                    map1.spec_tile(xx, yy)
                });
            }
            lemma_v_run_connected(*map, prev_y as int, new_y as int, prev_x as int);
            lemma_h_run_connected(*map, prev_x as int, new_x as int, new_y as int);
            lemma_connected_trans(
                *map,
                (prev_x as int, prev_y as int),
                (prev_x as int, new_y as int),
                (new_x as int, new_y as int),
            );
        }
    }
}

/// Generate a dungeon: an all-wall grid in which up to `MAX_ROOMS` random
/// rooms are carved, each accepted only when its closed extent overlaps no
/// earlier room, populated as it is accepted, and joined to the previous
/// room's center by one L-shaped tunnel. The player (the one entity handed
/// in) spawns at the first room's center, and the spawn point is connected
/// over open tiles to the center of every accepted room.
#[verifier::rlimit(100)]
pub fn make_map(objects: &mut Vec<Object>) -> (result: (GameMap, Vec<Rect>))
    requires
        old(objects)@.len() == 1,
    ensures
        result.0.wf(),
        result.0.width == MAP_WIDTH,
        result.0.height == MAP_HEIGHT,
        result.0.border_walls(),
        1 <= result.1@.len() <= MAX_ROOMS,
        forall|i: int, j: int|
            0 <= i < j < result.1@.len() ==> !(#[trigger] result.1@[i].spec_intersects(
                result.1@[j],
            )),
        forall|i: int|
            0 <= i < result.1@.len() ==> (#[trigger] result.1@[i]).wf() && 0 <= result.1@[i].x1
                && result.1@[i].x2 < MAP_WIDTH && 0 <= result.1@[i].y1 && result.1@[i].y2
                < MAP_HEIGHT,
        forall|i: int|
            0 <= i < result.1@.len() ==> ROOM_MIN_SIZE <= (#[trigger] result.1@[i]).x2
                - result.1@[i].x1 <= ROOM_MAX_SIZE && ROOM_MIN_SIZE <= result.1@[i].y2
                - result.1@[i].y1 <= ROOM_MAX_SIZE,
        forall|x: int, y: int|
            result.0.in_bounds(x, y) && !spec_carved(result.1@, x, y)
                ==> #[trigger] result.0.spec_tile(x, y) == (Tile {
                blocked: true,
                explored: false,
                block_sight: true,
            }),
        forall|i: int, x: int, y: int|
            0 <= i < result.1@.len() && #[trigger] result.1@[i].spec_interior(x, y)
                ==> result.0.open_at(x, y),
        final(objects)@.len() >= 1,
        final(objects)@[0] == at_position(
            old(objects)@[0],
            result.1@[0].spec_center().0 as i32,
            result.1@[0].spec_center().1 as i32,
        ),
        spec_objects_on_open(result.0, final(objects)@),
        forall|k: int|
            1 <= k < final(objects)@.len() ==> spec_is_archetype(#[trigger] final(objects)@[k]),
        forall|i: int|
            0 <= i < result.1@.len() ==> connected(
                result.0,
                (final(objects)@[0].x as int, final(objects)@[0].y as int),
                (#[trigger] result.1@[i]).spec_center(),
            ),
{
    let mut map = GameMap::new(MAP_WIDTH, MAP_HEIGHT);
    let mut rooms: Vec<Rect> = Vec::new();
    let mut attempt: i32 = 0;
    while attempt < MAX_ROOMS
        invariant
            map.wf(),
            map.width == MAP_WIDTH,
            map.height == MAP_HEIGHT,
            map.border_walls(),
            0 <= attempt <= MAX_ROOMS,
            attempt >= 1 ==> rooms@.len() >= 1,
            rooms@.len() <= attempt,
            forall|i: int|
                0 <= i < rooms@.len() ==> ROOM_MIN_SIZE <= (#[trigger] rooms@[i]).x2
                    - rooms@[i].x1 <= ROOM_MAX_SIZE && ROOM_MIN_SIZE <= rooms@[i].y2
                    - rooms@[i].y1 <= ROOM_MAX_SIZE,
            forall|x: int, y: int|
                map.in_bounds(x, y) && !spec_carved(rooms@, x, y) ==> #[trigger] map.spec_tile(
                    x,
                    y,
                ) == (Tile { blocked: true, explored: false, block_sight: true }),
            objects@.len() >= 1,
            rooms@.len() == 0 ==> objects@ == old(objects)@,
            rooms@.len() >= 1 ==> objects@[0] == at_position(
                old(objects)@[0],
                rooms@[0].spec_center().0 as i32,
                rooms@[0].spec_center().1 as i32,
            ),
            forall|i: int, j: int|
                0 <= i < j < rooms@.len() ==> !(#[trigger] rooms@[i].spec_intersects(rooms@[j])),
            forall|i: int|
                0 <= i < rooms@.len() ==> (#[trigger] rooms@[i]).wf() && 0 <= rooms@[i].x1
                    && rooms@[i].x2 < MAP_WIDTH && 0 <= rooms@[i].y1 && rooms@[i].y2 < MAP_HEIGHT,
            forall|i: int, x: int, y: int|
                0 <= i < rooms@.len() && #[trigger] rooms@[i].spec_interior(x, y) ==> map.open_at(
                    x,
                    y,
                ),
            forall|k: int|
                1 <= k < objects@.len() ==> spec_is_archetype(#[trigger] objects@[k]),
            forall|k: int|
                1 <= k < objects@.len() ==> map.open_at(
                    (#[trigger] objects@[k]).x as int,
                    objects@[k].y as int,
                ),
            rooms@.len() >= 1 ==> map.open_at(objects@[0].x as int, objects@[0].y as int),
            forall|i: int|
                0 <= i < rooms@.len() ==> connected(
                    map,
                    (objects@[0].x as int, objects@[0].y as int),
                    (#[trigger] rooms@[i]).spec_center(),
                ),
        decreases MAX_ROOMS - attempt,
    {
        let ghost map_pre = map;
        let room_width = rand_range_inclusive(ROOM_MIN_SIZE, ROOM_MAX_SIZE);
        let room_height = rand_range_inclusive(ROOM_MIN_SIZE, ROOM_MAX_SIZE);
        let x = rand_range_exclusive(0, MAP_WIDTH - room_width);
        let y = rand_range_exclusive(0, MAP_HEIGHT - room_height);
        let new_room = Rect::new(x, y, room_width, room_height);
        let mut failed = false;
        let mut i: usize = 0;
        while i < rooms.len()
            invariant
                i <= rooms@.len(),
                !failed ==> forall|j: int|
                    0 <= j < i ==> !new_room.spec_intersects(#[trigger] rooms@[j]),
                failed ==> rooms@.len() > 0,
            decreases rooms@.len() - i,
        {
            if new_room.intersects(&rooms[i]) {
                failed = true;
            }
            i = i + 1;
        }
        if !failed {
            create_room(new_room, &mut map);
            let ghost map_room = map;
            proof {
                // Carving a room only opens tiles.
                assert forall|xx: int, yy: int| #[trigger] map_pre.open_at(xx, yy) implies
                    map_room.open_at(xx, yy) by {
                    assert(map_room.spec_tile(xx, yy) == if new_room.spec_interior(xx, yy) {
                        (Tile { blocked: false, explored: false, block_sight: false })
                    } else {
                        map_pre.spec_tile(xx, yy)
                    });
                }
            }
            let ghost objs_pre = objects@;
            place_objects(new_room, &map, objects);
            let ghost objs_after = objects@;
            let (new_x, new_y) = new_room.center();
            if rooms.len() == 0 {
                let player = &mut objects[PLAYER];
                player.set_position(new_x, new_y);
                proof {
                    lemma_connected_refl(map, (new_x as int, new_y as int));
                }
            } else {
                let prev = rooms[rooms.len() - 1];
                let ghost spawn = (objects@[0].x as int, objects@[0].y as int);
                connect_rooms(prev, new_room, &mut map);
                proof {
                    // Every cell open before this iteration is still open.
                    assert forall|xx: int, yy: int| #[trigger] map_pre.open_at(xx, yy) implies
                        map.open_at(xx, yy) by {
                        assert(map_room.open_at(xx, yy));
                    }
                    // Earlier connectivity survives the carving,
                    assert forall|i2: int| 0 <= i2 < rooms@.len() implies connected(
                        map,
                        spawn,
                        (#[trigger] rooms@[i2]).spec_center(),
                    ) by {
                        lemma_connected_mono(map_pre, map, spawn, rooms@[i2].spec_center());
                    }
                    // and the new room's center is now reachable through the
                    // L-shaped tunnel from the previous room's center.
                    lemma_connected_trans(
                        map,
                        spawn,
                        prev.spec_center(),
                        new_room.spec_center(),
                    );
                    assert(new_room.spec_center() == (new_x as int, new_y as int));
                }
            }
            proof {
                // Re-establish each per-element invariant for the carved map
                // and the grown entity collection.
                assert forall|xx: int, yy: int| #[trigger] map_pre.open_at(xx, yy) implies
                    map.open_at(xx, yy) by {
                    assert(map_room.open_at(xx, yy));
                }
                assert forall|xx: int, yy: int| new_room.spec_interior(xx, yy) implies
                    #[trigger] map.open_at(xx, yy) by {
                    assert(map_room.open_at(xx, yy));
                }
                assert forall|i2: int, xx: int, yy: int|
                    0 <= i2 < rooms@.len() && #[trigger] rooms@[i2].spec_interior(xx, yy) implies
                    map.open_at(xx, yy) by {
                    assert(map_pre.open_at(xx, yy));
                }
                assert forall|k: int|
                    1 <= k < objects@.len() implies spec_is_archetype(
                    #[trigger] objects@[k],
                ) by {
                    if k >= objs_pre.len() {
                        assert(spec_placed_ok(objs_after, k, new_room, map_room));
                        assert(objects@[k] == objs_after[k]);
                    } else {
                        assert(objects@[k] == objs_pre[k]);
                    }
                }
                assert forall|k: int|
                    1 <= k < objects@.len() implies map.open_at(
                    (#[trigger] objects@[k]).x as int,
                    objects@[k].y as int,
                ) by {
                    if k >= objs_pre.len() {
                        assert(spec_placed_ok(objs_after, k, new_room, map_room));
                        assert(objects@[k] == objs_after[k]);
                        assert(new_room.spec_interior(objects@[k].x as int, objects@[k].y as int));
                    } else {
                        assert(objects@[k] == objs_pre[k]);
                        assert(map_pre.open_at(objs_pre[k].x as int, objs_pre[k].y as int));
                    }
                }
                // Every cell that is neither in an accepted interior nor on
                // a dug corridor is still the wall it started as.
                assert forall|xx: int, yy: int|
                    map.in_bounds(xx, yy) && !spec_carved(rooms@.push(new_room), xx, yy) implies
                    #[trigger] map.spec_tile(xx, yy) == (Tile {
                    blocked: true,
                    explored: false,
                    block_sight: true,
                }) by {
                    let newrooms = rooms@.push(new_room);
                    assert(newrooms[rooms@.len() as int] == new_room);
                    assert(!new_room.spec_interior(xx, yy));
                    if spec_carved(rooms@, xx, yy) {
                        if exists|i2: int|
                            0 <= i2 < rooms@.len() && (#[trigger] rooms@[i2]).spec_interior(
                                xx,
                                yy,
                            ) {
                            let i2 = choose|i2: int|
                                0 <= i2 < rooms@.len() && (#[trigger] rooms@[i2]).spec_interior(
                                    xx,
                                    yy,
                                );
                            assert(newrooms[i2] == rooms@[i2]);
                            assert(newrooms[i2].spec_interior(xx, yy));
                        } else {
                            let i2 = choose|i2: int|
                                1 <= i2 < rooms@.len() && spec_l_corridor(
                                    rooms@[i2 - 1],
                                    #[trigger] rooms@[i2],
                                    xx,
                                    yy,
                                );
                            assert(newrooms[i2] == rooms@[i2] && newrooms[i2 - 1] == rooms@[i2
                                - 1]);
                            assert(spec_l_corridor(newrooms[i2 - 1], newrooms[i2], xx, yy));
                        }
                        assert(false);
                    }
                    assert(map_room.spec_tile(xx, yy) == map_pre.spec_tile(xx, yy));
                    if rooms@.len() > 0 {
                        assert(newrooms[rooms@.len() - 1] == rooms@[rooms@.len() - 1]);
                        assert(!spec_l_corridor(rooms@[rooms@.len() - 1], new_room, xx, yy));
                        assert(map.spec_tile(xx, yy) == map_room.spec_tile(xx, yy));
                    } else {
                        assert(map.spec_tile(xx, yy) == map_room.spec_tile(xx, yy));
                    }
                }
            }
            rooms.push(new_room);
        }
        attempt = attempt + 1;
    }
    (map, rooms)
}

} // verus!
