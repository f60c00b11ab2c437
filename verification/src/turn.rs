//! The turn engine: one session context (map, message log, inventory), the
//! resolution of a single player command, and the monster phase that follows
//! a turn-consuming action. Monsters act once per player turn, never once per
//! input event.

use vstd::prelude::*;

use crate::color::Color;
use crate::combat::{spec_added, spec_attack_msg, spec_damage, spec_no_effect_msg, spec_take_damage_rel,
    stats_wf};
use crate::connect::connected;
use crate::gamemap::GameMap;
use crate::geometry::Rect;
use crate::mapgen::{make_map, spec_is_archetype, spec_objects_on_open};
use crate::object::{mut_two, spec_move_by, spec_step, DeathCallback, Fighter, Object};
use crate::text::Messages;
use crate::visibility::Fov;
use crate::{INVENTORY_CAPACITY, PLAYER};

verus! {

/// The session context: the dungeon, the message log and the inventory. The
/// turn engine owns one of these for the session's lifetime and every core
/// operation borrows it.
pub struct Game {
    pub map: GameMap,
    pub messages: Messages,
    pub inventory: Vec<Object>,
}

/// What one player input amounted to: a turn-consuming action, a UI-only
/// non-action, or the request to end the session.
#[derive(Clone, Copy, Debug, PartialEq, Eq, Structural)]
pub enum PlayerAction {
    TookTurn,
    DidntTakeTurn,
    Exit,
}

/// One decoded player input. The key-to-command mapping is the input layer's
/// business; the core only sees the command.
#[derive(Clone, Copy, Debug, PartialEq, Eq, Structural)]
pub enum Command {
    ToggleFullscreen,
    Exit,
    MoveUp,
    MoveDown,
    MoveLeft,
    MoveRight,
    PickUp,
    Inventory,
    Other,
}

/// The state every turn preserves: a well-formed walled map, every entity on
/// an open tile with sane statistics, the player (entity 0) without a policy
/// or item payload, no entity both acting and pick-up-able, and every
/// combat-capable non-player entity alive with the monster death policy (a
/// dead monster loses its combat capability in the death transition).
pub open spec fn session_wf(game: Game, objects: Seq<Object>) -> bool {
    &&& game.map.wf()
    &&& game.map.border_walls()
    &&& 1 <= objects.len()
    &&& spec_objects_on_open(game.map, objects)
    &&& forall|i: int| 0 <= i < objects.len() ==> stats_wf(#[trigger] objects[i])
    &&& forall|i: int|
        1 <= i < objects.len() ==> ((#[trigger] objects[i]).fighter matches Some(f) ==> f.hp >= 1
            && f.on_death is Monster)
    &&& objects[0].ai is None
    &&& objects[0].item is None
    &&& forall|i: int|
        0 <= i < objects.len() ==> !((#[trigger] objects[i]).ai is Some && objects[i].item
            is Some)
}

/// Text of the log line for a refused pick-up.
pub open spec fn spec_full_msg(name: Seq<char>) -> Seq<char> {
    "Your inventory is full, cannot pick up "@ + name + "."@
}

/// Text of the log line for a successful pick-up.
pub open spec fn spec_pickup_msg(name: Seq<char>) -> Seq<char> {
    "You picked up a "@ + name + "!"@
}

/// The outcome of one blow from `att` against a target that was `tgt` and is
/// now `tgt1`: positive damage is applied and reported (and may fire the
/// death transition), other damage changes nothing and is reported as
/// having no effect.
pub open spec fn spec_attack_outcome(
    att: Object,
    tgt: Object,
    tgt1: Object,
    log0: Seq<(String, Color)>,
    log1: Seq<(String, Color)>,
) -> bool {
    let d = spec_damage(att, tgt);
    if d > 0 {
        exists|mid: Seq<(String, Color)>|
            {
                &&& #[trigger] spec_added(
                    log0,
                    mid,
                    spec_attack_msg(att.name@, tgt.name@, d),
                    (Color { r: 255u8, g: 255u8, b: 255u8 }),
                )
                &&& spec_take_damage_rel(tgt, d, tgt1, mid, log1)
            }
    } else {
        tgt1 == tgt && spec_added(
            log0,
            log1,
            spec_no_effect_msg(att.name@, tgt.name@),
            (Color { r: 255u8, g: 255u8, b: 255u8 }),
        )
    }
}

/// `tid` is the first entity of the collection with combat capability
/// standing at `(x, y)` — the target a move into that cell attacks.
pub open spec fn spec_is_first_fighter_at(
    objects: Seq<Object>,
    x: int,
    y: int,
    tid: int,
) -> bool {
    &&& 0 <= tid < objects.len()
    &&& objects[tid].fighter is Some
    &&& objects[tid].x == x
    &&& objects[tid].y == y
    &&& forall|j: int|
        0 <= j < tid ==> !((#[trigger] objects[j]).fighter is Some && objects[j].x == x
            && objects[j].y == y)
}

/// The full effect of one player movement key: attack the first
/// combat-capable entity at the destination if there is one, else step there
/// if it is not blocked. Move-or-attack is mutually exclusive per key press.
pub open spec fn spec_move_or_attack_rel(
    dx: int,
    dy: int,
    map: GameMap,
    objects0: Seq<Object>,
    objects1: Seq<Object>,
    log0: Seq<(String, Color)>,
    log1: Seq<(String, Color)>,
) -> bool {
    let x = objects0[0].x + dx;
    let y = objects0[0].y + dy;
    if exists|tid: int| spec_is_first_fighter_at(objects0, x, y, tid) {
        exists|tid: int|
            {
                &&& #[trigger] spec_is_first_fighter_at(objects0, x, y, tid)
                &&& objects1 == objects0.update(tid, objects1[tid])
                &&& objects1[0] == objects0[0]
                &&& spec_attack_outcome(objects0[0], objects0[tid], objects1[tid], log0, log1)
            }
    } else {
        objects1 == spec_move_by(objects0, 0, dx, dy, map) && log1 == log0
    }
}

/// The full effect of picking up entity `object_id`: either the inventory is
/// at capacity and only the refusal is logged, or the entity moves from the
/// world collection (by swap-removal) into the inventory.
pub open spec fn spec_pick_up_rel(
    object_id: int,
    game0: Game,
    game1: Game,
    objects0: Seq<Object>,
    objects1: Seq<Object>,
) -> bool {
    &&& game1.map == game0.map
    &&& if game0.inventory@.len() >= INVENTORY_CAPACITY {
        objects1 == objects0 && game1.inventory@ == game0.inventory@ && spec_added(
            game0.messages.messages@,
            game1.messages.messages@,
            spec_full_msg(objects0[object_id].name@),
            (Color { r: 255u8, g: 0u8, b: 0u8 }),
        )
    } else {
        objects1 == objects0.update(object_id, objects0.last()).drop_last()
            && game1.inventory@ == game0.inventory@.push(objects0[object_id]) && spec_added(
            game0.messages.messages@,
            game1.messages.messages@,
            spec_pickup_msg(objects0[object_id].name@),
            (Color { r: 0u8, g: 255u8, b: 0u8 }),
        )
    }
}

/// Move the entity at `object_id` from the world into the inventory — unless
/// the inventory is at capacity, in which case the item stays on the ground
/// and exactly one "inventory is full" line is logged.
pub fn pick_item_up(object_id: usize, game: &mut Game, objects: &mut Vec<Object>)
    requires
        session_wf(*old(game), old(objects)@),
        object_id < old(objects)@.len(),
        old(objects)@[object_id as int].item is Some,
    ensures
        session_wf(*final(game), final(objects)@),
        final(game).map == old(game).map,
        spec_pick_up_rel(
            object_id as int,
            *old(game),
            *final(game),
            old(objects)@,
            final(objects)@,
        ),
{
    proof {
        // The player carries no item payload, so the picked entity is not
        // entity 0 and the player survives the removal.
        assert(object_id != 0);
    }
    if game.inventory.len() >= INVENTORY_CAPACITY {
        let msg = String::from_str("Your inventory is full, cannot pick up ").concat(
            objects[object_id].name.as_str(),
        ).concat(".");
        game.messages.add(msg, Color::red());
        proof {
            assert(final(game).messages.messages@.drop_last() =~= old(game).messages.messages@);
        }
    } else {
        let item = objects.swap_remove(object_id);
        let msg = String::from_str("You picked up a ").concat(item.name.as_str()).concat("!");
        game.messages.add(msg, Color::green());
        game.inventory.push(item);
        proof {
            assert(final(game).messages.messages@.drop_last() =~= old(game).messages.messages@);
            assert forall|i: int| 0 <= i < objects@.len() implies game.map.open_at(
                (#[trigger] objects@[i]).x as int,
                objects@[i].y as int,
            ) by {
                if i == object_id {
                    assert(objects@[i] == old(objects)@[old(objects)@.len() - 1]);
                } else {
                    assert(objects@[i] == old(objects)@[i]);
                }
            }
            assert forall|i: int| 0 <= i < objects@.len() implies stats_wf(
                #[trigger] objects@[i],
            ) by {
                if i == object_id {
                    assert(objects@[i] == old(objects)@[old(objects)@.len() - 1]);
                } else {
                    assert(objects@[i] == old(objects)@[i]);
                }
            }
            assert forall|i: int|
                1 <= i < objects@.len() implies ((#[trigger] objects@[i]).fighter matches Some(f)
                ==> f.hp >= 1 && f.on_death is Monster) by {
                if i == object_id {
                    assert(objects@[i] == old(objects)@[old(objects)@.len() - 1]);
                } else {
                    assert(objects@[i] == old(objects)@[i]);
                }
            }
            assert forall|i: int|
                0 <= i < objects@.len() implies !((#[trigger] objects@[i]).ai is Some
                && objects@[i].item is Some) by {
                if i == object_id {
                    assert(objects@[i] == old(objects)@[old(objects)@.len() - 1]);
                } else {
                    assert(objects@[i] == old(objects)@[i]);
                }
            }
            assert(objects@[0] == old(objects)@[0]);
        }
    }
}

/// Resolve one player movement key: if the first combat-capable entity at the
/// destination exists, attack it and do not move; otherwise step there if the
/// cell is open. One key press never does both.
pub fn player_move_or_attack(dx: i32, dy: i32, game: &mut Game, objects: &mut Vec<Object>)
    requires
        session_wf(*old(game), old(objects)@),
        -1 <= dx <= 1,
        -1 <= dy <= 1,
        !(dx == 0 && dy == 0),
    ensures
        session_wf(*final(game), final(objects)@),
        final(game).map == old(game).map,
        final(game).inventory == old(game).inventory,
        final(objects)@.len() == old(objects)@.len(),
        spec_move_or_attack_rel(
            dx as int,
            dy as int,
            old(game).map,
            old(objects)@,
            final(objects)@,
            old(game).messages.messages@,
            final(game).messages.messages@,
        ),
{
    proof {
        let p = old(objects)@[0];
        assert(!(p.x == 0 || p.x == game.map.width - 1 || p.y == 0 || p.y == game.map.height
            - 1));
    }
    let x = objects[PLAYER].x + dx;
    let y = objects[PLAYER].y + dy;
    let mut target_id: usize = 0;
    let mut found = false;
    let mut i: usize = 0;
    while i < objects.len()
        invariant
            i <= objects@.len(),
            !found ==> forall|j: int|
                0 <= j < i ==> !((#[trigger] objects@[j]).fighter is Some && objects@[j].x == x
                    && objects@[j].y == y),
            found ==> spec_is_first_fighter_at(objects@, x as int, y as int, target_id as int),
        decreases objects@.len() - i,
    {
        if !found {
            let o = &objects[i];
            if o.fighter.is_some() && o.x == x && o.y == y {
                found = true;
                target_id = i;
            }
        }
        i = i + 1;
    }
    if found {
        proof {
            // The target stands one step away, so it is not the player.
            assert(target_id != PLAYER);
        }
        let ghost objects0 = objects@;
        let ghost log0 = game.messages.messages@;
        let (player, target) = mut_two(PLAYER, target_id, objects.as_mut_slice());
        player.attack(target, &mut game.messages);
        proof {
            assert(objects@ =~= objects0.update(target_id as int, objects@[target_id as int]));
            assert(spec_attack_outcome(
                objects0[0],
                objects0[target_id as int],
                objects@[target_id as int],
                log0,
                game.messages.messages@,
            ));
            // The blow changes at most the target's stats and liveness, never
            // where anything stands, so the session stays well-formed.
            assert forall|k: int| 0 <= k < objects@.len() implies game.map.open_at(
                (#[trigger] objects@[k]).x as int,
                objects@[k].y as int,
            ) by {
                if k != target_id {
                    assert(objects@[k] == objects0[k]);
                }
            }
        }
    } else {
        Object::move_by(PLAYER, dx, dy, &game.map, objects);
        proof {
            assert forall|k: int| 0 <= k < objects@.len() implies stats_wf(
                #[trigger] objects@[k],
            ) by {
                if k != 0 {
                    assert(objects@[k] == old(objects)@[k]);
                }
            }
        }
    }
}

/// The full effect of one monster's turn under the reactive policy: nothing
/// happens while the monster is outside the player's field of view; a
/// visible monster two or more cells away (Euclidean) takes one normalised
/// step towards the player; a visible monster closer than that attacks a
/// still-living player, and stands idle over a dead one.
pub open spec fn spec_ai_rel(
    monster_id: int,
    fov: Fov,
    map: GameMap,
    objects0: Seq<Object>,
    objects1: Seq<Object>,
    log0: Seq<(String, Color)>,
    log1: Seq<(String, Color)>,
) -> bool {
    let m = objects0[monster_id];
    let p = objects0[0];
    let dist_sq = (p.x - m.x) * (p.x - m.x) + (p.y - m.y) * (p.y - m.y);
    if !fov.spec_visible(m.x as int, m.y as int) {
        objects1 == objects0 && log1 == log0
    } else if dist_sq >= 4 {
        objects1 == spec_move_by(
            objects0,
            monster_id,
            spec_step(p.x - m.x, p.y - m.y),
            spec_step(p.y - m.y, p.x - m.x),
            map,
        ) && log1 == log0
    } else if p.fighter matches Some(f) && f.hp > 0 {
        &&& objects1 == objects0.update(0, objects1[0])
        &&& objects1[monster_id] == m
        &&& spec_attack_outcome(m, p, objects1[0], log0, log1)
    } else {
        objects1 == objects0 && log1 == log0
    }
}

/// Run one monster's reactive policy: chase the player while at distance,
/// melee when adjacent, and only while inside the player's field of view.
pub fn ai_take_turn(monster_id: usize, game: &mut Game, objects: &mut Vec<Object>, fov: &Fov)
    requires
        session_wf(*old(game), old(objects)@),
        monster_id < old(objects)@.len(),
        monster_id != PLAYER,
        fov.wf_for(old(game).map),
    ensures
        session_wf(*final(game), final(objects)@),
        final(game).map == old(game).map,
        final(game).inventory == old(game).inventory,
        final(objects)@.len() == old(objects)@.len(),
        spec_ai_rel(
            monster_id as int,
            *fov,
            old(game).map,
            old(objects)@,
            final(objects)@,
            old(game).messages.messages@,
            final(game).messages.messages@,
        ),
{
    let (monster_x, monster_y) = objects[monster_id].position();
    if fov.is_visible(monster_x, monster_y) {
        let dist_sq = objects[monster_id].distance_squared_to(&objects[PLAYER]);
        if dist_sq >= 4 {
            let (player_x, player_y) = objects[PLAYER].position();
            proof {
                // At squared distance four or more the monster does not stand
                // on the player's cell.
                if player_x == monster_x && player_y == monster_y {
                    assert((player_x - monster_x) * (player_x - monster_x) + (player_y - monster_y)
                        * (player_y - monster_y) == 0) by (nonlinear_arith)
                        requires
                            player_x == monster_x,
                            player_y == monster_y,
                    ;
                }
            }
            Object::move_towards(monster_id, player_x, player_y, &game.map, objects);
            proof {
                assert forall|k: int| 0 <= k < objects@.len() implies stats_wf(
                    #[trigger] objects@[k],
                ) by {
                    if k != monster_id {
                        assert(objects@[k] == old(objects)@[k]);
                    }
                }
                assert forall|k: int|
                    1 <= k < objects@.len() implies ((#[trigger] objects@[k]).fighter matches Some(
                    f,
                ) ==> f.hp >= 1 && f.on_death is Monster) by {
                    if k != monster_id {
                        assert(objects@[k] == old(objects)@[k]);
                    }
                }
            }
        } else {
            let player_lives = match &objects[PLAYER].fighter {
                Some(f) => f.hp > 0,
                None => false,
            };
            if player_lives {
                let ghost objects0 = objects@;
                let ghost log0 = game.messages.messages@;
                let (monster, player) = mut_two(monster_id, PLAYER, objects.as_mut_slice());
                monster.attack(player, &mut game.messages);
                proof {
                    assert(objects@ =~= objects0.update(0, objects@[0]));
                    assert(spec_attack_outcome(
                        objects0[monster_id as int],
                        objects0[0],
                        objects@[0],
                        log0,
                        game.messages.messages@,
                    ));
                    assert forall|k: int| 0 <= k < objects@.len() implies game.map.open_at(
                        (#[trigger] objects@[k]).x as int,
                        objects@[k].y as int,
                    ) by {
                        if k != 0 {
                            assert(objects@[k] == objects0[k]);
                        }
                    }
                    assert forall|k: int| 0 <= k < objects@.len() implies stats_wf(
                        #[trigger] objects@[k],
                    ) by {
                        if k != 0 {
                            assert(objects@[k] == objects0[k]);
                        }
                    }
                    assert forall|k: int|
                        1 <= k < objects@.len() implies ((#[trigger] objects@[k]).fighter
                        matches Some(f) ==> f.hp >= 1 && f.on_death is Monster) by {
                        assert(objects@[k] == objects0[k]);
                    }
                }
            }
        }
    }
}

/// Step `k` of the monster phase: entity `k` acts under the reactive policy
/// if it carries one, and everything is left alone otherwise.
pub open spec fn spec_ai_step_ok(
    k: int,
    fov: Fov,
    map: GameMap,
    objects0: Seq<Object>,
    objects1: Seq<Object>,
    log0: Seq<(String, Color)>,
    log1: Seq<(String, Color)>,
) -> bool {
    if 0 <= k < objects0.len() && objects0[k].ai is Some {
        spec_ai_rel(k, fov, map, objects0, objects1, log0, log1)
    } else {
        objects1 == objects0 && log1 == log0
    }
}

/// A complete monster phase: `states[k]` and `logs[k]` are the collection
/// and the log before entity `k` acts, and each consecutive pair is one
/// policy step, in collection order.
pub open spec fn spec_ai_phase_chain(
    fov: Fov,
    map: GameMap,
    states: Seq<Seq<Object>>,
    logs: Seq<Seq<(String, Color)>>,
) -> bool {
    &&& states.len() >= 1
    &&& logs.len() == states.len()
    &&& forall|k: int|
        0 <= k < states.len() - 1 ==> #[trigger] spec_ai_step_ok(
            k,
            fov,
            map,
            states[k],
            states[k + 1],
            logs[k],
            logs[k + 1],
        )
}

/// Which action each command amounts to: `Exit` ends the session, a movement
/// command consumes a turn while the player lives, and everything else —
/// fullscreen toggles, opening the inventory menu, pick-ups, unmapped keys —
/// is UI-only and consumes none, so it never reaches the monsters.
pub open spec fn spec_action(command: Command, alive: bool) -> PlayerAction {
    match command {
        Command::ToggleFullscreen => PlayerAction::DidntTakeTurn,
        Command::Exit => PlayerAction::Exit,
        Command::MoveUp | Command::MoveDown | Command::MoveLeft | Command::MoveRight => if alive {
            PlayerAction::TookTurn
        } else {
            PlayerAction::DidntTakeTurn
        },
        Command::PickUp => PlayerAction::DidntTakeTurn,
        Command::Inventory => PlayerAction::DidntTakeTurn,
        Command::Other => PlayerAction::DidntTakeTurn,
    }
}

/// `iid` is the first item-bearing entity standing at `(x, y)` — what a
/// pick-up at that cell takes.
pub open spec fn spec_first_item_at(objects: Seq<Object>, x: int, y: int, iid: int) -> bool {
    &&& 0 <= iid < objects.len()
    &&& objects[iid].item is Some
    &&& objects[iid].x == x
    &&& objects[iid].y == y
    &&& forall|j: int|
        0 <= j < iid ==> !((#[trigger] objects[j]).item is Some && objects[j].x == x
            && objects[j].y == y)
}

/// Every policy-carrying entity of the old collection survives, by value,
/// into the new one, and none appears from nowhere: in particular no such
/// entity's position or hit points changed.
pub open spec fn spec_ai_entities_preserved(objects0: Seq<Object>, objects1: Seq<Object>) -> bool {
    &&& forall|j: int|
        0 <= j < objects0.len() && (#[trigger] objects0[j]).ai is Some ==> exists|i: int|
            0 <= i < objects1.len() && objects1[i] == objects0[j]
    &&& forall|i: int|
        0 <= i < objects1.len() && (#[trigger] objects1[i]).ai is Some ==> exists|j: int|
            0 <= j < objects0.len() && objects0[j] == objects1[i]
}

/// An unchanged collection preserves its policy-carrying entities.
proof fn lemma_ai_preserved_refl(objects: Seq<Object>)
    ensures
        spec_ai_entities_preserved(objects, objects),
{
    assert forall|j: int|
        0 <= j < objects.len() && (#[trigger] objects[j]).ai is Some implies exists|i: int|
            0 <= i < objects.len() && objects[i] == objects[j] by {
        assert(0 <= j < objects.len() && objects[j] == objects[j]);
    }
}

/// Swap-removing a policy-free entity preserves the policy-carrying ones.
proof fn lemma_ai_preserved_swap_remove(objects0: Seq<Object>, k: int)
    requires
        0 <= k < objects0.len(),
        objects0[k].ai is None,
    ensures
        spec_ai_entities_preserved(
            objects0,
            objects0.update(k, objects0.last()).drop_last(),
        ),
{
    let objects1 = objects0.update(k, objects0.last()).drop_last();
    assert forall|j: int|
        0 <= j < objects0.len() && (#[trigger] objects0[j]).ai is Some implies exists|i: int|
            0 <= i < objects1.len() && objects1[i] == objects0[j] by {
        if j < objects0.len() - 1 {
            assert(objects1[j] == objects0[j]);
        } else {
            assert(objects1[k] == objects0[j]);
        }
    }
    assert forall|i: int|
        0 <= i < objects1.len() && (#[trigger] objects1[i]).ai is Some implies exists|j: int|
            0 <= j < objects0.len() && objects0[j] == objects1[i] by {
        if i == k {
            assert(objects0[objects0.len() - 1] == objects1[i]);
        } else {
            assert(objects0[i] == objects1[i]);
        }
    }
}

/// The full effect of one command on the session. Movement keys move or
/// attack; a pick-up takes the first item under the player; everything
/// else — and any command while the player is dead — changes nothing.
pub open spec fn spec_handle_keys_rel(
    command: Command,
    game0: Game,
    game1: Game,
    objects0: Seq<Object>,
    objects1: Seq<Object>,
) -> bool {
    let alive = objects0[0].alive;
    match command {
        Command::MoveUp | Command::MoveDown | Command::MoveLeft | Command::MoveRight => if !alive {
            objects1 == objects0 && game1 == game0
        } else {
            let step: (int, int) = match command {
                Command::MoveUp => (0, -1),
                Command::MoveDown => (0, 1),
                Command::MoveLeft => (-1, 0),
                _ => (1, 0),
            };
            &&& game1.map == game0.map
            &&& game1.inventory == game0.inventory
            &&& spec_move_or_attack_rel(
                step.0,
                step.1,
                game0.map,
                objects0,
                objects1,
                game0.messages.messages@,
                game1.messages.messages@,
            )
        },
        Command::PickUp => if !alive {
            objects1 == objects0 && game1 == game0
        } else {
            let px = objects0[0].x as int;
            let py = objects0[0].y as int;
            if exists|iid: int| spec_first_item_at(objects0, px, py, iid) {
                exists|iid: int|
                    {
                        &&& #[trigger] spec_first_item_at(objects0, px, py, iid)
                        &&& spec_pick_up_rel(iid, game0, game1, objects0, objects1)
                    }
            } else {
                objects1 == objects0 && game1 == game0
            }
        },
        _ => objects1 == objects0 && game1 == game0,
    }
}

/// Resolve one player command. Movement keys move or attack (and consume the
/// turn while the player lives); a pick-up takes the first item under the
/// player without consuming the turn; opening the inventory menu is UI-only
/// and consumes none either; everything else changes nothing. A command that
/// did not consume the turn leaves every policy-carrying entity untouched.
pub fn handle_keys(command: Command, game: &mut Game, objects: &mut Vec<Object>) -> (action:
    PlayerAction)
    requires
        session_wf(*old(game), old(objects)@),
    ensures
        session_wf(*final(game), final(objects)@),
        final(game).map == old(game).map,
        action == spec_action(command, old(objects)@[0].alive),
        spec_handle_keys_rel(command, *old(game), *final(game), old(objects)@, final(objects)@),
        action is DidntTakeTurn ==> spec_ai_entities_preserved(old(objects)@, final(objects)@),
{
    let player_alive = objects[PLAYER].alive;
    match (command, player_alive) {
        (Command::ToggleFullscreen, _) => {
            proof {
                lemma_ai_preserved_refl(objects@);
            }
            PlayerAction::DidntTakeTurn
        },
        (Command::Exit, _) => PlayerAction::Exit,
        (Command::MoveUp, true) => {
            player_move_or_attack(0, -1, game, objects);
            PlayerAction::TookTurn
        },
        (Command::MoveDown, true) => {
            player_move_or_attack(0, 1, game, objects);
            PlayerAction::TookTurn
        },
        (Command::MoveLeft, true) => {
            player_move_or_attack(-1, 0, game, objects);
            PlayerAction::TookTurn
        },
        (Command::MoveRight, true) => {
            player_move_or_attack(1, 0, game, objects);
            PlayerAction::TookTurn
        },
        (Command::PickUp, true) => {
            let (px, py) = objects[PLAYER].position();
            let mut item_id: usize = 0;
            let mut found = false;
            let mut i: usize = 0;
            while i < objects.len()
                invariant
                    i <= objects@.len(),
                    !found ==> forall|j: int|
                        0 <= j < i ==> !((#[trigger] objects@[j]).item is Some && objects@[j].x
                            == px && objects@[j].y == py),
                    found ==> spec_first_item_at(objects@, px as int, py as int, item_id as int),
                decreases objects@.len() - i,
            {
                if !found {
                    let o = &objects[i];
                    if o.item.is_some() && o.x == px && o.y == py {
                        found = true;
                        item_id = i;
                    }
                }
                i = i + 1;
            }
            if found {
                let ghost objects0 = objects@;
                pick_item_up(item_id, game, objects);
                proof {
                    if old(game).inventory@.len() >= INVENTORY_CAPACITY {
                        lemma_ai_preserved_refl(objects@);
                    } else {
                        assert(objects0[item_id as int].ai is None);
                        lemma_ai_preserved_swap_remove(objects0, item_id as int);
                    }
                }
            } else {
                proof {
                    lemma_ai_preserved_refl(objects@);
                }
            }
            PlayerAction::DidntTakeTurn
        },
        (Command::Inventory, true) => {
            proof {
                lemma_ai_preserved_refl(objects@);
            }
            PlayerAction::DidntTakeTurn
        },
        _ => {
            proof {
                lemma_ai_preserved_refl(objects@);
            }
            PlayerAction::DidntTakeTurn
        },
    }
}

/// Resolve one full turn: the player's command first, then — only when the
/// command consumed the turn and the player still lives — one action for
/// every policy-carrying entity, in collection order. An input that did not
/// consume the turn never reaches the monsters: their positions and hit
/// points survive such an input cycle untouched.
pub fn play_turn(command: Command, game: &mut Game, objects: &mut Vec<Object>, fov: &Fov) -> (action:
    PlayerAction)
    requires
        session_wf(*old(game), old(objects)@),
        fov.wf_for(old(game).map),
    ensures
        session_wf(*final(game), final(objects)@),
        final(game).map == old(game).map,
        action == spec_action(command, old(objects)@[0].alive),
        action is DidntTakeTurn ==> spec_ai_entities_preserved(old(objects)@, final(objects)@),
        exists|
            mid_game: Game,
            mid_objects: Seq<Object>,
            states: Seq<Seq<Object>>,
            logs: Seq<Seq<(String, Color)>>,
        |
            #![trigger spec_handle_keys_rel(command, *old(game), mid_game, old(objects)@,
            mid_objects), spec_ai_phase_chain(*fov, old(game).map, states, logs)]
            {
                &&& spec_handle_keys_rel(
                    command,
                    *old(game),
                    mid_game,
                    old(objects)@,
                    mid_objects,
                )
                &&& spec_ai_phase_chain(*fov, old(game).map, states, logs)
                &&& mid_game.map == final(game).map
                &&& mid_game.inventory == final(game).inventory
                &&& if action is TookTurn && mid_objects.len() >= 1 && mid_objects[0].alive {
                    &&& states.len() == mid_objects.len() + 1
                    &&& states.first() == mid_objects
                    &&& states.last() == final(objects)@
                    &&& logs.first() == mid_game.messages.messages@
                    &&& logs.last() == final(game).messages.messages@
                } else {
                    final(objects)@ == mid_objects && final(game).messages
                        == mid_game.messages
                }
            },
{
    let action = handle_keys(command, game, objects);
    let ghost mid_game = *game;
    let ghost mid_objects = objects@;
    let ghost mut states: Seq<Seq<Object>> = seq![mid_objects];
    let ghost mut logs: Seq<Seq<(String, Color)>> = seq![mid_game.messages.messages@];
    let took_turn = match action {
        PlayerAction::TookTurn => true,
        _ => false,
    };
    if took_turn && objects[PLAYER].alive {
        let mut id: usize = 0;
        while id < objects.len()
            invariant
                session_wf(*game, objects@),
                game.map == old(game).map,
                fov.wf_for(game.map),
                objects@.len() == mid_objects.len(),
                game.inventory == mid_game.inventory,
                id <= objects@.len(),
                states.len() == id + 1,
                logs.len() == id + 1,
                states.first() == mid_objects,
                states.last() == objects@,
                logs.first() == mid_game.messages.messages@,
                logs.last() == game.messages.messages@,
                forall|k: int|
                    0 <= k < states.len() - 1 ==> #[trigger] spec_ai_step_ok(
                        k,
                        *fov,
                        old(game).map,
                        states[k],
                        states[k + 1],
                        logs[k],
                        logs[k + 1],
                    ),
            decreases objects@.len() - id,
        {
            let ghost pre_states = states;
            let ghost pre_logs = logs;
            let ghost pre_objects = objects@;
            let ghost pre_log = game.messages.messages@;
            let has_ai = objects[id].ai.is_some();
            if has_ai {
                ai_take_turn(id, game, objects, fov);
            }
            proof {
                states = states.push(objects@);
                logs = logs.push(game.messages.messages@);
                assert(spec_ai_step_ok(
                    id as int,
                    *fov,
                    old(game).map,
                    pre_objects,
                    objects@,
                    pre_log,
                    game.messages.messages@,
                ));
                assert forall|k: int|
                    0 <= k < states.len() - 1 implies #[trigger] spec_ai_step_ok(
                    k,
                    *fov,
                    old(game).map,
                    states[k],
                    states[k + 1],
                    logs[k],
                    logs[k + 1],
                ) by {
                    if k < pre_states.len() - 1 {
                        assert(states[k] == pre_states[k] && states[k + 1] == pre_states[k + 1]);
                        assert(logs[k] == pre_logs[k] && logs[k + 1] == pre_logs[k + 1]);
                        assert(spec_ai_step_ok(
                            k,
                            *fov,
                            old(game).map,
                            pre_states[k],
                            pre_states[k + 1],
                            pre_logs[k],
                            pre_logs[k + 1],
                        ));
                    } else {
                        assert(states[k] == pre_objects && states[k + 1] == objects@);
                        assert(logs[k] == pre_log && logs[k + 1] == game.messages.messages@);
                    }
                }
            }
            id = id + 1;
        }
    }
    proof {
        // The snapshots taken after the command phase witness the stated
        // decomposition of the turn.
        assert(spec_handle_keys_rel(command, *old(game), mid_game, old(objects)@, mid_objects));
        assert(spec_ai_phase_chain(*fov, old(game).map, states, logs));
    }
    action
}

/// Start a session: create the player, generate and populate the dungeon
/// with the player spawned at the first room's center, and open the message
/// log with the welcome line. The spawn point is connected over open tiles
/// to every generated room's center, and no two generated rooms overlap.
pub fn new_game() -> (r: (Game, Vec<Object>, Vec<Rect>))
    ensures
        session_wf(r.0, r.1@),
        r.1@.len() >= 1,
        r.1@[0].glyph == '@',
        r.1@[0].name@ == "Player"@,
        r.1@[0].blocks,
        r.1@[0].alive,
        r.1@[0].fighter == Some(
            Fighter {
                max_hp: 30i32,
                hp: 30i32,
                defense: 2i32,
                power: 5i32,
                on_death: DeathCallback::Player,
            },
        ),
        (r.1@[0].x as int, r.1@[0].y as int) == r.2@[0].spec_center(),
        forall|k: int| 1 <= k < r.1@.len() ==> spec_is_archetype(#[trigger] r.1@[k]),
        1 <= r.2@.len() <= crate::MAX_ROOMS,
        forall|i: int, j: int|
            0 <= i < j < r.2@.len() ==> !(#[trigger] r.2@[i].spec_intersects(r.2@[j])),
        forall|i: int|
            0 <= i < r.2@.len() ==> crate::ROOM_MIN_SIZE <= (#[trigger] r.2@[i]).x2 - r.2@[i].x1
                <= crate::ROOM_MAX_SIZE && crate::ROOM_MIN_SIZE <= r.2@[i].y2 - r.2@[i].y1
                <= crate::ROOM_MAX_SIZE,
        forall|x: int, y: int|
            r.0.map.in_bounds(x, y) && !crate::mapgen::spec_carved(r.2@, x, y)
                ==> #[trigger] r.0.map.spec_tile(x, y) == (crate::tile::Tile {
                blocked: true,
                explored: false,
                block_sight: true,
            }),
        forall|i: int|
            0 <= i < r.2@.len() ==> connected(
                r.0.map,
                (r.1@[0].x as int, r.1@[0].y as int),
                (#[trigger] r.2@[i]).spec_center(),
            ),
        r.0.messages.messages@.len() == 1,
        r.0.messages.messages@[0].0@
            == "Welcome stranger! Prepare to perish in the Tombs of the Ancient Kings."@,
        r.0.inventory@.len() == 0,
{
    let mut player = Object::new(25, 23, '@', "Player", Color::white(), true);
    player.alive = true;
    player.fighter = Some(
        Fighter { max_hp: 30, hp: 30, defense: 2, power: 5, on_death: DeathCallback::Player },
    );
    let mut objects: Vec<Object> = Vec::new();
    objects.push(player);
    let (map, rooms) = make_map(&mut objects);
    let mut messages = Messages::new();
    messages.add(
        String::from_str("Welcome stranger! Prepare to perish in the Tombs of the Ancient Kings."),
        Color::red(),
    );
    let game = Game { map, messages, inventory: Vec::new() };
    proof {
        assert forall|i: int| 0 <= i < objects@.len() implies stats_wf(
            #[trigger] objects@[i],
        ) by {
            if i >= 1 {
                assert(spec_is_archetype(objects@[i]));
            }
        }
        assert forall|i: int|
            1 <= i < objects@.len() implies ((#[trigger] objects@[i]).fighter matches Some(f)
            ==> f.hp >= 1 && f.on_death is Monster) by {
            assert(spec_is_archetype(objects@[i]));
        }
        assert forall|i: int|
            0 <= i < objects@.len() implies !((#[trigger] objects@[i]).ai is Some
            && objects@[i].item is Some) by {
            if i >= 1 {
                assert(spec_is_archetype(objects@[i]));
            }
        }
    }
    (game, objects, rooms)
}

} // verus!
