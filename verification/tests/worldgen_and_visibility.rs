//! Map generation, the visibility gate and the render decisions, exercised
//! on concrete grids and on freshly generated dungeons.

use std::collections::VecDeque;

use unrogue_core::color::Color;
use unrogue_core::gamemap::{create_h_tunnel, create_room, create_v_tunnel, GameMap};
use unrogue_core::geometry::Rect;
use unrogue_core::object::{is_blocked, mut_two, Object};
use unrogue_core::render::{draw_order, menu_selection, objects_under_mouse, tile_color};
use unrogue_core::tile::Tile;
use unrogue_core::turn::new_game;
use unrogue_core::visibility::{needs_fov_recompute, update_explored, Fov};
use unrogue_core::{MAP_HEIGHT, MAP_WIDTH, ROOM_MAX_SIZE, ROOM_MIN_SIZE};

/// Every open tile reachable from `(sx, sy)` by 4-adjacent steps.
fn reachable(map: &GameMap, sx: i32, sy: i32) -> Vec<Vec<bool>> {
    let w = map.width as usize;
    let h = map.height as usize;
    let mut seen = vec![vec![false; h]; w];
    let mut queue = VecDeque::new();
    if !map.tiles[sx as usize][sy as usize].blocked {
        seen[sx as usize][sy as usize] = true;
        queue.push_back((sx, sy));
    }
    while let Some((x, y)) = queue.pop_front() {
        for (dx, dy) in [(1, 0), (-1, 0), (0, 1), (0, -1)] {
            let (nx, ny) = (x + dx, y + dy);
            if nx >= 0 && nx < map.width && ny >= 0 && ny < map.height {
                if !map.tiles[nx as usize][ny as usize].blocked && !seen[nx as usize][ny as usize]
                {
                    seen[nx as usize][ny as usize] = true;
                    queue.push_back((nx, ny));
                }
            }
        }
    }
    seen
}

#[test]
fn tiles_have_the_stated_flags() {
    let empty = Tile::empty();
    assert!(!empty.blocked && !empty.block_sight && !empty.explored);
    let wall = Tile::wall();
    assert!(wall.blocked && wall.block_sight && !wall.explored);
}

#[test]
fn rect_center_and_intersection() {
    let a = Rect::new(20, 15, 10, 15);
    assert_eq!(a.center(), (25, 22));
    let b = Rect::new(50, 15, 10, 15);
    assert!(!a.intersects(&b));
    let c = Rect::new(25, 20, 10, 10);
    assert!(a.intersects(&c));
    assert!(c.intersects(&a));
    // Edge-adjacent closed extents count as intersecting.
    let d = Rect::new(30, 15, 5, 5);
    assert!(a.intersects(&d));
}

#[test]
fn two_rooms_and_a_tunnel_are_carved_open() {
    let mut map = GameMap::new(MAP_WIDTH, MAP_HEIGHT);
    create_room(Rect::new(20, 15, 10, 15), &mut map);
    create_room(Rect::new(50, 15, 10, 15), &mut map);
    create_h_tunnel(25, 55, 23, &mut map);
    for x in 25..=55 {
        assert!(
            !map.tiles[x as usize][23].blocked,
            "tile ({}, 23) should be open",
            x
        );
    }
    // The room border ring is still wall.
    assert!(map.tiles[20][15].blocked);
    assert!(map.tiles[50][15].blocked);
    // Room interiors are open.
    assert!(!map.tiles[21][16].blocked);
    assert!(!map.tiles[59][29].blocked);
}

#[test]
fn vertical_tunnel_is_carved_inclusively() {
    let mut map = GameMap::new(30, 30);
    create_v_tunnel(5, 12, 7, &mut map);
    for y in 5..=12 {
        assert!(!map.tiles[7][y as usize].blocked);
    }
    assert!(map.tiles[7][4].blocked);
    assert!(map.tiles[7][13].blocked);
}

#[test]
fn generated_rooms_do_not_overlap() {
    let (game, _objects, rooms) = new_game();
    assert!(rooms.len() >= 1);
    for i in 0..rooms.len() {
        for j in (i + 1)..rooms.len() {
            assert!(!rooms[i].intersects(&rooms[j]));
        }
    }
    // Every room lies inside the map with a wall ring around it, and its
    // sides were drawn from the configured size range.
    for room in &rooms {
        assert!(room.x1 >= 0 && room.x2 < game.map.width);
        assert!(room.y1 >= 0 && room.y2 < game.map.height);
        let width = room.x2 - room.x1;
        let height = room.y2 - room.y1;
        assert!((ROOM_MIN_SIZE..=ROOM_MAX_SIZE).contains(&width));
        assert!((ROOM_MIN_SIZE..=ROOM_MAX_SIZE).contains(&height));
    }
}

#[test]
fn spawn_reaches_every_room_center() {
    let (game, objects, rooms) = new_game();
    let (px, py) = objects[0].position();
    assert_eq!((px, py), rooms[0].center());
    let seen = reachable(&game.map, px, py);
    for room in &rooms {
        let (cx, cy) = room.center();
        assert!(
            seen[cx as usize][cy as usize],
            "room center ({}, {}) unreachable from spawn ({}, {})",
            cx,
            cy,
            px,
            py
        );
    }
}

#[test]
fn generated_world_is_well_populated() {
    let (game, objects, _rooms) = new_game();
    // One welcome line opens the log.
    assert_eq!(game.messages.len(), 1);
    assert_eq!(
        game.messages.get(0).0,
        "Welcome stranger! Prepare to perish in the Tombs of the Ancient Kings."
    );
    assert_eq!(game.messages.get(0).1, Color::red());
    // The player leads the collection; everything stands on open ground.
    assert_eq!(objects[0].name, "Player");
    assert_eq!(objects[0].glyph, '@');
    for o in &objects {
        assert!(!game.map.tiles[o.x as usize][o.y as usize].blocked);
    }
    // Monsters block and fight, items do neither.
    for o in objects.iter().skip(1) {
        match o.name.as_str() {
            "Orc" => {
                assert!(o.blocks && o.alive);
                let f = o.fighter.unwrap();
                assert_eq!((f.max_hp, f.hp, f.defense, f.power), (10, 10, 0, 3));
            }
            "Troll" => {
                assert!(o.blocks && o.alive);
                let f = o.fighter.unwrap();
                assert_eq!((f.max_hp, f.hp, f.defense, f.power), (16, 16, 1, 4));
            }
            "Healing potion" => {
                assert!(!o.blocks && o.fighter.is_none() && o.item.is_some());
            }
            other => panic!("unexpected entity: {}", other),
        }
    }
}

#[test]
fn explored_is_a_ratchet() {
    let mut map = GameMap::new(10, 10);
    create_room(Rect::new(0, 0, 9, 9), &mut map);
    let mut fov = Fov::new(10, 10);
    fov.set(3, 4, true);
    fov.set(5, 5, true);
    update_explored(&mut map, &fov);
    assert!(map.tiles[3][4].explored);
    assert!(map.tiles[5][5].explored);
    assert!(!map.tiles[2][2].explored);
    // Visibility moves on; what was explored stays explored.
    let mut fov2 = Fov::new(10, 10);
    fov2.set(2, 2, true);
    update_explored(&mut map, &fov2);
    assert!(map.tiles[3][4].explored);
    assert!(map.tiles[5][5].explored);
    assert!(map.tiles[2][2].explored);
    let fov3 = Fov::new(10, 10);
    update_explored(&mut map, &fov3);
    assert!(map.tiles[3][4].explored && map.tiles[5][5].explored && map.tiles[2][2].explored);
}

#[test]
fn fov_recompute_only_after_movement() {
    assert!(!needs_fov_recompute((3, 4), (3, 4)));
    assert!(needs_fov_recompute((3, 4), (4, 4)));
    assert!(needs_fov_recompute((-1, -1), (25, 23)));
}

#[test]
fn tile_colors_cover_the_four_states() {
    assert_eq!(tile_color(false, true), Color::new(0, 0, 100));
    assert_eq!(tile_color(false, false), Color::new(50, 50, 150));
    assert_eq!(tile_color(true, true), Color::new(130, 110, 50));
    assert_eq!(tile_color(true, false), Color::new(200, 180, 50));
}

#[test]
fn draw_order_puts_blockers_on_top() {
    let mut corpse = Object::new(1, 1, '%', "remains of Orc", Color::dark_red(), false);
    corpse.alive = false;
    let actor = Object::new(1, 1, 'o', "Orc", Color::desaturated_green(), true);
    let hidden = Object::new(2, 2, 'T', "Troll", Color::darker_green(), true);
    let objects = vec![actor, corpse, hidden];
    let mut fov = Fov::new(5, 5);
    fov.set(1, 1, true);
    let order = draw_order(&objects, &fov);
    // Only the two entities at the visible cell are drawn: the corpse (index
    // 1, non-blocking) first, the actor (index 0, blocking) after.
    assert_eq!(order, vec![1, 0]);
}

#[test]
fn objects_under_mouse_lists_visible_entities_at_a_cell() {
    let a = Object::new(1, 1, 'o', "Orc", Color::desaturated_green(), true);
    let mut b = Object::new(1, 1, '%', "remains of Troll", Color::dark_red(), false);
    b.alive = false;
    let c = Object::new(2, 2, '!', "Healing potion", Color::violet(), false);
    let objects = vec![a, b, c];
    let mut fov = Fov::new(5, 5);
    fov.set(1, 1, true);
    let found = objects_under_mouse(1, 1, &objects, &fov);
    assert_eq!(found, vec![0, 1]);
    // The same cell without visibility names nothing.
    let dark = Fov::new(5, 5);
    let found = objects_under_mouse(1, 1, &objects, &dark);
    assert!(found.is_empty());
}

#[test]
fn menu_letters_select_entries() {
    assert_eq!(menu_selection('a', 5), Some(0));
    assert_eq!(menu_selection('e', 5), Some(4));
    assert_eq!(menu_selection('f', 5), None);
    assert_eq!(menu_selection('C', 5), Some(2));
    assert_eq!(menu_selection('z', 26), Some(25));
    assert_eq!(menu_selection('1', 26), None);
    assert_eq!(menu_selection(' ', 26), None);
}

#[test]
fn is_blocked_sees_walls_and_blockers() {
    let mut map = GameMap::new(10, 10);
    create_room(Rect::new(0, 0, 9, 9), &mut map);
    let orc = Object::new(3, 3, 'o', "Orc", Color::desaturated_green(), true);
    let potion = Object::new(4, 4, '!', "Healing potion", Color::violet(), false);
    let objects = vec![orc, potion];
    assert!(is_blocked(0, 0, &map, &objects));
    assert!(is_blocked(3, 3, &map, &objects));
    assert!(!is_blocked(4, 4, &map, &objects));
    assert!(!is_blocked(5, 5, &map, &objects));
}

#[test]
fn mut_two_borrows_two_distinct_entries() {
    let mut values = vec![10i32, 20, 30, 40];
    {
        let (a, b) = mut_two(1, 3, &mut values);
        assert_eq!((*a, *b), (20, 40));
        *a = 21;
        *b = 41;
    }
    assert_eq!(values, vec![10, 21, 30, 41]);
    {
        let (a, b) = mut_two(2, 0, &mut values);
        assert_eq!((*a, *b), (30, 10));
        *a += 1;
    }
    assert_eq!(values, vec![10, 21, 31, 41]);
}
