//! Combat resolution, death transitions, inventory handling and the turn
//! engine, exercised on concrete sessions.

use unrogue_core::color::Color;
use unrogue_core::gamemap::{create_room, GameMap};
use unrogue_core::geometry::Rect;
use unrogue_core::object::{Ai, DeathCallback, Fighter, Object};
use unrogue_core::text::Messages;
use unrogue_core::turn::{handle_keys, pick_item_up, play_turn, player_move_or_attack, ai_take_turn,
    Command, Game, PlayerAction};
use unrogue_core::visibility::Fov;
use unrogue_core::INVENTORY_CAPACITY;

fn player_at(x: i32, y: i32) -> Object {
    let mut player = Object::new(x, y, '@', "Player", Color::white(), true);
    player.alive = true;
    player.fighter = Some(Fighter {
        max_hp: 30,
        hp: 30,
        defense: 2,
        power: 5,
        on_death: DeathCallback::Player,
    });
    player
}

fn orc_at(x: i32, y: i32) -> Object {
    let mut orc = Object::new(x, y, 'o', "Orc", Color::desaturated_green(), true);
    orc.alive = true;
    orc.fighter = Some(Fighter {
        max_hp: 10,
        hp: 10,
        defense: 0,
        power: 3,
        on_death: DeathCallback::Monster,
    });
    orc.ai = Some(Ai::Basic);
    orc
}

fn potion_at(x: i32, y: i32) -> Object {
    let mut potion = Object::new(x, y, '!', "Healing potion", Color::violet(), false);
    potion.item = Some(unrogue_core::object::Item::Heal);
    potion
}

/// A small map whose cells (1..=8, 1..=8) are all open floor.
fn open_map() -> GameMap {
    let mut map = GameMap::new(10, 10);
    create_room(Rect::new(0, 0, 9, 9), &mut map);
    map
}

#[test]
fn attack_deals_power_minus_defense() {
    let mut attacker = player_at(1, 1);
    let mut target = Object::new(2, 1, 'o', "Orc", Color::desaturated_green(), true);
    target.alive = true;
    target.fighter = Some(Fighter {
        max_hp: 10,
        hp: 10,
        defense: 2,
        power: 3,
        on_death: DeathCallback::Monster,
    });
    let mut messages = Messages::new();
    attacker.attack(&mut target, &mut messages);
    let fighter = target.fighter.expect("target keeps its combat stats");
    assert_eq!(fighter.hp, 7);
    assert_eq!(fighter.max_hp, 10);
    assert!(target.alive);
    assert_eq!(messages.len(), 1);
    let line = messages.get(0);
    assert_eq!(line.0, "Player attacks Orc for 3 hit points.");
    assert_eq!(line.1, Color::white());
}

#[test]
fn negated_attack_changes_nothing() {
    let mut attacker = Object::new(1, 1, '@', "Player", Color::white(), true);
    attacker.fighter = Some(Fighter {
        max_hp: 30,
        hp: 30,
        defense: 2,
        power: 2,
        on_death: DeathCallback::Player,
    });
    let mut target = Object::new(2, 1, 'T', "Troll", Color::darker_green(), true);
    target.fighter = Some(Fighter {
        max_hp: 16,
        hp: 16,
        defense: 5,
        power: 4,
        on_death: DeathCallback::Monster,
    });
    let mut messages = Messages::new();
    attacker.attack(&mut target, &mut messages);
    assert_eq!(target.fighter.unwrap().hp, 16);
    assert_eq!(messages.len(), 1);
    assert_eq!(messages.get(0).0, "Player attacks Troll but it has no effect!");
}

#[test]
fn monster_death_leaves_untargetable_remains() {
    let map = open_map();
    let mut game = Game {
        map,
        messages: Messages::new(),
        inventory: Vec::new(),
    };
    let player = player_at(2, 2);
    let mut monster = orc_at(3, 2);
    monster.fighter = Some(Fighter {
        max_hp: 10,
        hp: 1,
        defense: 0,
        power: 3,
        on_death: DeathCallback::Monster,
    });
    let mut objects = vec![player, monster];
    // Power 5 against defense 0 exhausts the single hit point.
    player_move_or_attack(1, 0, &mut game, &mut objects);
    assert!(!objects[1].alive);
    assert_eq!(objects[1].glyph, '%');
    assert!(!objects[1].blocks);
    assert!(objects[1].fighter.is_none());
    assert!(objects[1].ai.is_none());
    assert_eq!(objects[1].name, "remains of Orc");
    assert_eq!(game.messages.len(), 2);
    assert_eq!(game.messages.get(0).0, "Player attacks Orc for 5 hit points.");
    assert_eq!(
        game.messages.get(1).0,
        "Orc is dead! You gain 10 experience points."
    );
    // The remains are no valid target: the same key now moves the player
    // onto the corpse's cell instead of attacking.
    let before = game.messages.len();
    player_move_or_attack(1, 0, &mut game, &mut objects);
    assert_eq!((objects[0].x, objects[0].y), (3, 2));
    assert_eq!(game.messages.len(), before);
}

#[test]
fn dying_monster_hp_reaches_zero_or_below_exactly_once() {
    let mut monster = orc_at(3, 2);
    monster.fighter = Some(Fighter {
        max_hp: 10,
        hp: 1,
        defense: 0,
        power: 3,
        on_death: DeathCallback::Monster,
    });
    let mut messages = Messages::new();
    monster.take_damage(3, &mut messages);
    assert!(!monster.alive);
    assert!(monster.fighter.is_none());
    assert_eq!(messages.len(), 1);
}

#[test]
fn player_death_keeps_entity_in_place() {
    let mut player = player_at(2, 2);
    player.fighter = Some(Fighter {
        max_hp: 30,
        hp: 1,
        defense: 2,
        power: 5,
        on_death: DeathCallback::Player,
    });
    let mut messages = Messages::new();
    player.take_damage(4, &mut messages);
    assert!(!player.alive);
    assert_eq!(player.glyph, '%');
    assert_eq!(player.color, Color::dark_red());
    // The player entity keeps its stats record and stays in the world.
    assert_eq!(player.fighter.unwrap().hp, -3);
    assert_eq!(messages.len(), 1);
    assert_eq!(messages.get(0).0, "You died!");
}

#[test]
fn blocked_move_is_a_silent_no_op() {
    let map = open_map();
    let player = player_at(1, 1);
    let mut objects = vec![player];
    // (0, 1) is the all-wall border.
    Object::move_by(0, -1, 0, &map, &mut objects);
    assert_eq!((objects[0].x, objects[0].y), (1, 1));
    Object::move_by(0, 1, 0, &map, &mut objects);
    assert_eq!((objects[0].x, objects[0].y), (2, 1));
}

#[test]
fn move_respects_blocking_entities_but_not_items() {
    let map = open_map();
    let player = player_at(1, 1);
    let blocker = orc_at(2, 1);
    let potion = potion_at(1, 2);
    let mut objects = vec![player, blocker, potion];
    // A blocking entity occupies the destination: no move.
    Object::move_by(0, 1, 0, &map, &mut objects);
    assert_eq!((objects[0].x, objects[0].y), (1, 1));
    // An item does not block movement.
    Object::move_by(0, 0, 1, &map, &mut objects);
    assert_eq!((objects[0].x, objects[0].y), (1, 2));
}

#[test]
fn move_towards_normalises_to_unit_steps() {
    let map = open_map();
    let mut objects = vec![orc_at(1, 1)];
    // Displacement (3, 4): both axes round to a full step.
    Object::move_towards(0, 4, 5, &map, &mut objects);
    assert_eq!((objects[0].x, objects[0].y), (2, 2));
    // Displacement (1, 2) from (2, 2): x rounds to 0, y to 1.
    Object::move_towards(0, 3, 4, &map, &mut objects);
    assert_eq!((objects[0].x, objects[0].y), (2, 3));
    // Straight line.
    Object::move_towards(0, 2, 8, &map, &mut objects);
    assert_eq!((objects[0].x, objects[0].y), (2, 4));
}

#[test]
fn distance_squared_matches_formula() {
    let a = orc_at(1, 1);
    let b = orc_at(4, 5);
    assert_eq!(a.distance_squared_to(&b), 25);
    assert_eq!(b.distance_squared_to(&a), 25);
    assert_eq!(a.distance_squared_to(&a), 0);
}

#[test]
fn inventory_at_capacity_rejects_pick_up() {
    let map = open_map();
    let mut inventory = Vec::new();
    for _ in 0..INVENTORY_CAPACITY {
        inventory.push(potion_at(0, 0));
    }
    let mut game = Game {
        map,
        messages: Messages::new(),
        inventory,
    };
    let player = player_at(2, 2);
    let potion = potion_at(2, 2);
    let mut objects = vec![player, potion];
    let action = handle_keys(Command::PickUp, &mut game, &mut objects);
    assert_eq!(action, PlayerAction::DidntTakeTurn);
    // The item stays on the ground and the inventory did not grow.
    assert_eq!(objects.len(), 2);
    assert!(objects[1].item.is_some());
    assert_eq!(game.inventory.len(), INVENTORY_CAPACITY);
    // Exactly one refusal line was logged.
    assert_eq!(game.messages.len(), 1);
    assert_eq!(
        game.messages.get(0).0,
        "Your inventory is full, cannot pick up Healing potion."
    );
    assert_eq!(game.messages.get(0).1, Color::red());
}

#[test]
fn pick_up_moves_item_into_inventory() {
    let map = open_map();
    let mut game = Game {
        map,
        messages: Messages::new(),
        inventory: Vec::new(),
    };
    let player = player_at(2, 2);
    let potion = potion_at(2, 2);
    let mut objects = vec![player, potion];
    pick_item_up(1, &mut game, &mut objects);
    assert_eq!(objects.len(), 1);
    assert_eq!(game.inventory.len(), 1);
    assert_eq!(game.inventory[0].name, "Healing potion");
    assert_eq!(game.messages.len(), 1);
    assert_eq!(game.messages.get(0).0, "You picked up a Healing potion!");
    assert_eq!(game.messages.get(0).1, Color::green());
}

#[test]
fn non_turn_input_never_reaches_the_monsters() {
    let map = open_map();
    let mut game = Game {
        map,
        messages: Messages::new(),
        inventory: Vec::new(),
    };
    let player = player_at(2, 2);
    let monster = orc_at(3, 2);
    let mut objects = vec![player, monster];
    let mut fov = Fov::new(10, 10);
    // The monster is in full view and adjacent: a consumed turn would let
    // it strike.
    fov.set(3, 2, true);
    let action = play_turn(Command::Other, &mut game, &mut objects, &fov);
    assert_eq!(action, PlayerAction::DidntTakeTurn);
    assert_eq!((objects[1].x, objects[1].y), (3, 2));
    assert_eq!(objects[1].fighter.unwrap().hp, 10);
    assert_eq!(objects[0].fighter.unwrap().hp, 30);
    assert_eq!(game.messages.len(), 0);

    let action = play_turn(Command::ToggleFullscreen, &mut game, &mut objects, &fov);
    assert_eq!(action, PlayerAction::DidntTakeTurn);
    assert_eq!(objects[0].fighter.unwrap().hp, 30);
}

#[test]
fn adjacent_visible_monster_attacks_on_consumed_turn() {
    let map = open_map();
    let mut game = Game {
        map,
        messages: Messages::new(),
        inventory: Vec::new(),
    };
    let player = player_at(2, 2);
    let monster = orc_at(3, 2);
    let mut objects = vec![player, monster];
    let mut fov = Fov::new(10, 10);
    fov.set(3, 2, true);
    // The player steps away; the monster's phase runs and it strikes for
    // power 3 against defense 2.
    let action = play_turn(Command::MoveDown, &mut game, &mut objects, &fov);
    assert_eq!(action, PlayerAction::TookTurn);
    assert_eq!((objects[0].x, objects[0].y), (2, 3));
    assert_eq!(objects[0].fighter.unwrap().hp, 29);
    assert_eq!(
        game.messages.get(game.messages.len() - 1).0,
        "Orc attacks Player for 1 hit points."
    );
}

#[test]
fn unseen_monster_takes_no_action() {
    let map = open_map();
    let mut game = Game {
        map,
        messages: Messages::new(),
        inventory: Vec::new(),
    };
    let player = player_at(2, 2);
    let monster = orc_at(6, 6);
    let mut objects = vec![player, monster];
    let fov = Fov::new(10, 10);
    ai_take_turn(1, &mut game, &mut objects, &fov);
    assert_eq!((objects[1].x, objects[1].y), (6, 6));
    assert_eq!(game.messages.len(), 0);
}

#[test]
fn visible_distant_monster_chases_the_player() {
    let map = open_map();
    let mut game = Game {
        map,
        messages: Messages::new(),
        inventory: Vec::new(),
    };
    let player = player_at(2, 2);
    let monster = orc_at(6, 6);
    let mut objects = vec![player, monster];
    let mut fov = Fov::new(10, 10);
    fov.set(6, 6, true);
    ai_take_turn(1, &mut game, &mut objects, &fov);
    assert_eq!((objects[1].x, objects[1].y), (5, 5));
    assert_eq!(game.messages.len(), 0);
}

#[test]
fn dead_player_input_consumes_no_turn() {
    let map = open_map();
    let mut game = Game {
        map,
        messages: Messages::new(),
        inventory: Vec::new(),
    };
    let mut player = player_at(2, 2);
    player.alive = false;
    let mut objects = vec![player];
    let fov = Fov::new(10, 10);
    let action = play_turn(Command::MoveRight, &mut game, &mut objects, &fov);
    assert_eq!(action, PlayerAction::DidntTakeTurn);
    assert_eq!((objects[0].x, objects[0].y), (2, 2));
    let action = play_turn(Command::Exit, &mut game, &mut objects, &fov);
    assert_eq!(action, PlayerAction::Exit);
}

#[test]
fn hp_never_exceeds_max_hp_through_combat() {
    let mut attacker = player_at(1, 1);
    let mut target = orc_at(2, 1);
    let mut messages = Messages::new();
    for _ in 0..3 {
        attacker.attack(&mut target, &mut messages);
        if let Some(f) = target.fighter {
            assert!(f.hp <= f.max_hp);
        }
    }
    assert!(target.fighter.is_none());
    assert!(!target.alive);
}

#[test]
fn opening_the_inventory_is_ui_only() {
    let map = open_map();
    let mut game = Game {
        map,
        messages: Messages::new(),
        inventory: Vec::new(),
    };
    let player = player_at(2, 2);
    let monster = orc_at(3, 2);
    let mut objects = vec![player, monster];
    let mut fov = Fov::new(10, 10);
    fov.set(3, 2, true);
    // A menu interaction must not reach the adjacent, visible monster.
    let action = play_turn(Command::Inventory, &mut game, &mut objects, &fov);
    assert_eq!(action, PlayerAction::DidntTakeTurn);
    assert_eq!((objects[0].x, objects[0].y), (2, 2));
    assert_eq!(objects[0].fighter.unwrap().hp, 30);
    assert_eq!(game.messages.len(), 0);
    assert!(game.inventory.is_empty());
}

#[test]
fn pick_up_input_cycle_leaves_monsters_untouched() {
    let map = open_map();
    let mut game = Game {
        map,
        messages: Messages::new(),
        inventory: Vec::new(),
    };
    let player = player_at(2, 2);
    let potion = potion_at(2, 2);
    let monster = orc_at(3, 3);
    let mut objects = vec![player, potion, monster];
    let fov = Fov::new(10, 10);
    let action = play_turn(Command::PickUp, &mut game, &mut objects, &fov);
    assert_eq!(action, PlayerAction::DidntTakeTurn);
    assert_eq!(game.inventory.len(), 1);
    // The item left the world; the monster survives by value, wherever the
    // swap-removal put it.
    assert_eq!(objects.len(), 2);
    let survivor = objects
        .iter()
        .find(|o| o.ai.is_some())
        .expect("the monster is still in the world");
    assert_eq!((survivor.x, survivor.y), (3, 3));
    assert_eq!(survivor.fighter.unwrap().hp, 10);
}

#[test]
fn pick_up_with_nothing_underfoot_changes_nothing() {
    let map = open_map();
    let mut game = Game {
        map,
        messages: Messages::new(),
        inventory: Vec::new(),
    };
    let player = player_at(2, 2);
    let potion = potion_at(5, 5);
    let mut objects = vec![player, potion];
    let action = handle_keys(Command::PickUp, &mut game, &mut objects);
    assert_eq!(action, PlayerAction::DidntTakeTurn);
    assert_eq!(objects.len(), 2);
    assert!(game.inventory.is_empty());
    assert_eq!(game.messages.len(), 0);
}
