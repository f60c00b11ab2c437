//! The combat resolver: damage between two entities and the death
//! transitions. Damage is attacker power minus target defense; defense can
//! fully negate an attack but never heals. Death is not removal — a dead
//! entity stays in the collection as inert remains.

use vstd::prelude::*;

use crate::color::Color;
use crate::object::{DeathCallback, Fighter, Object};
use crate::text::{int_to_text, spec_int_text, Messages};
use crate::STAT_MAX;

verus! {

/// Every combat statistic of `o`, if it has any, lies in the accepted range.
pub open spec fn stats_wf(o: Object) -> bool {
    match o.fighter {
        Some(f) => f.wf(),
        None => true,
    }
}

/// The damage one melee blow deals before the `damage > 0` gate:
/// attacker power minus target defense, a missing capability counting as 0.
pub open spec fn spec_damage(attacker: Object, target: Object) -> int {
    (match attacker.fighter {
        Some(f) => f.power,
        None => 0,
    }) - (match target.fighter {
        Some(f) => f.defense,
        None => 0,
    })
}

/// The hit points of `o` after taking `damage`: reduced only when the entity
/// has combat capability and the damage is positive.
pub open spec fn spec_hp_after(o: Object, damage: int) -> int {
    match o.fighter {
        Some(f) => if damage > 0 {
            f.hp - damage
        } else {
            f.hp as int
        },
        None => 0,
    }
}

/// One line was appended to the log: same lines as before, then one with the
/// given text and colour.
pub open spec fn spec_added(
    old_log: Seq<(String, Color)>,
    new_log: Seq<(String, Color)>,
    text: Seq<char>,
    color: Color,
) -> bool {
    &&& new_log.len() == old_log.len() + 1
    &&& new_log.drop_last() == old_log
    &&& new_log.last().0@ == text
    &&& new_log.last().1 == color
}

/// Text of the log line for a landed blow.
pub open spec fn spec_attack_msg(attacker: Seq<char>, target: Seq<char>, damage: int) -> Seq<
    char,
> {
    attacker + " attacks "@ + target + " for "@ + spec_int_text(damage) + " hit points."@
}

/// Text of the log line for a fully negated blow.
pub open spec fn spec_no_effect_msg(attacker: Seq<char>, target: Seq<char>) -> Seq<char> {
    attacker + " attacks "@ + target + " but it has no effect!"@
}

/// Text of the log line for a monster's death.
pub open spec fn spec_death_msg(name: Seq<char>, experience: int) -> Seq<char> {
    name + " is dead! You gain "@ + spec_int_text(experience) + " experience points."@
}

/// The name of a monster's remains.
pub open spec fn spec_remains_name(name: Seq<char>) -> Seq<char> {
    "remains of "@ + name
}

/// `n` is `o` rewritten into a monster's remains: same place, corpse glyph,
/// non-blocking, renamed, with combat and policy capabilities cleared.
pub open spec fn spec_monster_remains(o: Object, n: Object) -> bool {
    &&& n.x == o.x
    &&& n.y == o.y
    &&& n.glyph == '%'
    &&& n.color == (Color { r: 191u8, g: 0u8, b: 0u8 })
    &&& n.name@ == spec_remains_name(o.name@)
    &&& !n.blocks
    &&& n.alive == o.alive
    &&& n.fighter is None
    &&& n.ai is None
    &&& n.item == o.item
}

/// The full effect of damage resolution on an entity `o` and the log `log0`:
/// hit points drop by positive damage only, and when they are exhausted the
/// entity is flagged dead and its death policy runs exactly once.
pub open spec fn spec_take_damage_rel(
    o: Object,
    damage: int,
    n: Object,
    log0: Seq<(String, Color)>,
    log1: Seq<(String, Color)>,
) -> bool {
    match o.fighter {
        None => n == o && log1 == log0,
        Some(f) => {
            let hp2 = spec_hp_after(o, damage);
            let damaged = Object { fighter: Some(Fighter { hp: hp2 as i32, ..f }), ..o };
            if hp2 > 0 {
                n == damaged && log1 == log0
            } else {
                let dead = Object { alive: false, ..damaged };
                match f.on_death {
                    DeathCallback::Player => n == (Object {
                        glyph: '%',
                        color: (Color { r: 191u8, g: 0u8, b: 0u8 }),
                        ..dead
                    }) && spec_added(
                        log0,
                        log1,
                        "You died!"@,
                        (Color { r: 255u8, g: 0u8, b: 0u8 }),
                    ),
                    DeathCallback::Monster => spec_monster_remains(
                        Object { alive: false, ..o },
                        n,
                    ) && spec_added(
                        log0,
                        log1,
                        spec_death_msg(o.name@, f.max_hp as int),
                        (Color { r: 255u8, g: 127u8, b: 0u8 }),
                    ),
                }
            }
        },
    }
}

impl DeathCallback {
    /// Run the death transition this policy selects on `object`.
    pub fn callback(self, object: &mut Object, messages: &mut Messages)
        requires
            self is Monster ==> old(object).fighter is Some,
        ensures
            self is Player ==> *final(object) == (Object {
                glyph: '%',
                color: (Color { r: 191u8, g: 0u8, b: 0u8 }),
                ..*old(object)
            }) && spec_added(
                old(messages).messages@,
                final(messages).messages@,
                "You died!"@,
                (Color { r: 255u8, g: 0u8, b: 0u8 }),
            ),
            self is Monster ==> spec_monster_remains(*old(object), *final(object)) && spec_added(
                old(messages).messages@,
                final(messages).messages@,
                spec_death_msg(old(object).name@, old(object).fighter.unwrap().max_hp as int),
                (Color { r: 255u8, g: 127u8, b: 0u8 }),
            ),
    {
        match self {
            DeathCallback::Player => DeathCallback::player_death(object, messages),
            DeathCallback::Monster => DeathCallback::monster_death(object, messages),
        }
    }

    /// The player's death: the entity stays where it is, presented as a
    /// corpse; the turn engine reads the dead state and stops advancing.
    fn player_death(player: &mut Object, messages: &mut Messages)
        ensures
            *final(player) == (Object {
                glyph: '%',
                color: (Color { r: 191u8, g: 0u8, b: 0u8 }),
                ..*old(player)
            }),
            spec_added(
                old(messages).messages@,
                final(messages).messages@,
                "You died!"@,
                (Color { r: 255u8, g: 0u8, b: 0u8 }),
            ),
    {
        messages.add(String::from_str("You died!"), Color::red());
        player.glyph = '%';
        player.color = Color::dark_red();
        proof {
            assert(final(messages).messages@.drop_last() =~= old(messages).messages@);
        }
    }

    /// A monster's death: report the kill, then rewrite the entity into
    /// inert remains — non-blocking, no combat, no policy.
    fn monster_death(monster: &mut Object, messages: &mut Messages)
        requires
            old(monster).fighter is Some,
        ensures
            spec_monster_remains(*old(monster), *final(monster)),
            spec_added(
                old(messages).messages@,
                final(messages).messages@,
                spec_death_msg(old(monster).name@, old(monster).fighter.unwrap().max_hp as int),
                (Color { r: 255u8, g: 127u8, b: 0u8 }),
            ),
    {
        let max_hp = match &monster.fighter {
            Some(f) => f.max_hp,
            None => 0,
        };
        let msg = monster.name.clone().concat(" is dead! You gain ").concat(
            int_to_text(max_hp).as_str(),
        ).concat(" experience points.");
        messages.add(msg, Color::orange());
        monster.glyph = '%';
        monster.color = Color::dark_red();
        monster.blocks = false;
        monster.fighter = None;
        monster.ai = None;
        let remains = String::from_str("remains of ").concat(monster.name.as_str());
        monster.name = remains;
        proof {
            assert(final(messages).messages@.drop_last() =~= old(messages).messages@);
        }
    }
}

impl Object {
    /// Apply `damage` to this entity's hit points (positive damage only) and
    /// fire the death transition exactly once if they are exhausted.
    /// The entity ends flagged dead precisely when its hit points after the
    /// blow are zero or below; hit points never rise, so they stay at or
    /// under `max_hp`.
    pub fn take_damage(&mut self, damage: i32, messages: &mut Messages)
        requires
            stats_wf(*old(self)),
            damage <= STAT_MAX,
        ensures
            spec_take_damage_rel(
                *old(self),
                damage as int,
                *final(self),
                old(messages).messages@,
                final(messages).messages@,
            ),
            old(self).fighter is Some ==> final(self).alive == (old(self).alive && spec_hp_after(
                *old(self),
                damage as int,
            ) > 0),
            old(self).fighter is None ==> *final(self) == *old(self),
            ({
                match final(self).fighter {
                    Some(g) => g.hp <= g.max_hp,
                    None => true,
                }
            }),
    {
        match self.fighter {
            Some(f) => {
                let new_hp = if damage > 0 {
                    f.hp - damage
                } else {
                    f.hp
                };
                self.fighter = Some(Fighter { hp: new_hp, ..f });
                if new_hp <= 0 {
                    self.alive = false;
                    f.on_death.callback(self, messages);
                }
            },
            None => {},
        }
    }

    /// One melee blow from this entity against `target`: positive damage is
    /// applied and reported; zero or negative damage changes nothing and is
    /// reported as having no effect. The attacker itself is never changed.
    pub fn attack(&mut self, target: &mut Object, messages: &mut Messages)
        requires
            stats_wf(*old(self)),
            stats_wf(*old(target)),
        ensures
            *final(self) == *old(self),
            ({
                let a = *old(self);
                let t = *old(target);
                let d = spec_damage(a, t);
                if d > 0 {
                    exists|mid: Seq<(String, Color)>|
                        {
                            &&& #[trigger] spec_added(
                                old(messages).messages@,
                                mid,
                                spec_attack_msg(a.name@, t.name@, d),
                                (Color { r: 255u8, g: 255u8, b: 255u8 }),
                            )
                            &&& spec_take_damage_rel(
                                t,
                                d,
                                *final(target),
                                mid,
                                final(messages).messages@,
                            )
                        }
                } else {
                    *final(target) == t && spec_added(
                        old(messages).messages@,
                        final(messages).messages@,
                        spec_no_effect_msg(a.name@, t.name@),
                        (Color { r: 255u8, g: 255u8, b: 255u8 }),
                    )
                }
            }),
    {
        let power = match &self.fighter {
            Some(f) => f.power,
            None => 0,
        };
        let defense = match &target.fighter {
            Some(f) => f.defense,
            None => 0,
        };
        let damage = power - defense;
        if damage > 0 {
            let msg = self.name.clone().concat(" attacks ").concat(target.name.as_str()).concat(
                " for ",
            ).concat(int_to_text(damage).as_str()).concat(" hit points.");
            messages.add(msg, Color::white());
            let ghost mid = messages.messages@;
            target.take_damage(damage, messages);
            proof {
                assert(mid.drop_last() =~= old(messages).messages@);
                assert(spec_added(
                    old(messages).messages@,
                    mid,
                    spec_attack_msg(old(self).name@, old(target).name@, damage as int),
                    (Color { r: 255u8, g: 255u8, b: 255u8 }),
                ));
            }
        } else {
            let msg = self.name.clone().concat(" attacks ").concat(target.name.as_str()).concat(
                " but it has no effect!",
            );
            messages.add(msg, Color::white());
            proof {
                assert(final(messages).messages@.drop_last() =~= old(messages).messages@);
            }
        }
    }
}

} // verus!
