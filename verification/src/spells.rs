use vstd::prelude::*;
use vstd::string::*;
use crate::ai::lemma_root_is_clear;
use crate::colors::{light_blue, light_green, light_violet, orange, red};
use crate::combat::{hp_after, Stat};
use crate::config::Config;
use crate::entity::{dist_sq, distance_squared, Ai, Fighter, Object, UseResult, PLAYER};
use crate::fov::FovMap;
use crate::helper::{closest_monster, closest_strikable};
use crate::messages::{
    burned_message, burned_text, confused_message, confused_text, fireball_message, fireball_text,
    lightning_message, lightning_text, FULL_HEALTH, NO_ENEMY, WOUNDS_BETTER,
};
use crate::session::{Game, Line};

verus! {

/// What drinking a healing potion of `amount` points does. A player at
/// full health keeps the potion and is told so; otherwise the player is
/// healed and the potion is used up. Someone who cannot fight has no use
/// for it.
pub open spec fn heal_cast(
    objects: Seq<Object>,
    inventory: Seq<Object>,
    log: Seq<Line>,
    objects_after: Seq<Object>,
    log_after: Seq<Line>,
    result: UseResult,
    amount: int,
) -> bool {
    let player = objects[PLAYER as int];
    match player.fighter {
        Some(f) => if f.hp == player.effective(inventory, Stat::MaxHp) {
            &&& result == UseResult::Cancelled
            &&& objects_after == objects
            &&& log_after == log.push(Line { text: FULL_HEALTH@, color: red() })
        } else {
            &&& result == UseResult::UsedUp
            &&& objects_after == objects.update(PLAYER as int, player.healed(amount, inventory))
            &&& log_after == log.push(Line { text: WOUNDS_BETTER@, color: light_violet() })
        },
        None => result == UseResult::Cancelled && objects_after == objects && log_after == log,
    }
}

/// Heals the player by the configured amount.
pub fn cast_heal(_inventory_id: usize, objects: &mut [Object], game: &mut Game, config: &Config) -> (result:
    UseResult)
    requires
        old(objects)@.len() >= 1,
        old(objects)@[PLAYER as int].in_limits(),
        old(game).inventory_in_limits(),
        old(objects)@[PLAYER as int].fighter matches Some(f) ==> i32::MIN <= f.hp
            + config.heal_amount <= i32::MAX,
    ensures
        final(game).map == old(game).map,
        final(game).inventory == old(game).inventory,
        final(game).dungeon_level == old(game).dungeon_level,
        heal_cast(
            old(objects)@,
            old(game).inventory@,
            old(game).log@,
            final(objects)@,
            final(game).log@,
            result,
            config.heal_amount as int,
        ),
{
    match objects[PLAYER].fighter {
        Some(fighter) => {
            if fighter.hp == objects[PLAYER].max_hp(game) {
                game.log.add_str(FULL_HEALTH, red());
                return UseResult::Cancelled;
            }
            game.log.add_str(WOUNDS_BETTER, light_violet());
            objects[PLAYER].heal(config.heal_amount, game);
            UseResult::UsedUp
        },
        None => UseResult::Cancelled,
    }
}

/// Object `target` can be dealt `damage` on the player's behalf in machine
/// integers: its hit points have room for it, and if it dies, the player is
/// a fighter whose experience has room for the reward.
pub open spec fn can_strike(objects: Seq<Object>, target: int, damage: int) -> bool {
    let victim = objects[target];
    &&& victim.fighter matches Some(f) ==> hp_after(f.hp as int, damage) >= i32::MIN
    &&& victim.dies_from(damage) ==> objects[PLAYER as int].fighter is Some && i32::MIN
        <= objects[PLAYER as int].fighter->0.xp + victim.fighter->0.xp <= i32::MAX
}

/// What a scroll of lightning does: the nearest enemy in reach takes the
/// damage, and the player the experience if that kills it; with no enemy in
/// reach the scroll is kept.
pub open spec fn lightning_cast(
    objects: Seq<Object>,
    fov: &FovMap,
    log: Seq<Line>,
    objects_after: Seq<Object>,
    log_after: Seq<Line>,
    result: UseResult,
    range: int,
    damage: int,
) -> bool {
    match closest_strikable(objects, fov, range) {
        Some(id) => {
            let victim = objects[id];
            &&& result == UseResult::UsedUp
            &&& objects_after.len() == objects.len()
            &&& victim.took_damage(objects_after[id], damage)
            &&& objects_after[PLAYER as int] == if victim.dies_from(damage) {
                objects[PLAYER as int].credited(victim.fighter->0.xp as int)
            } else {
                objects[PLAYER as int]
            }
            &&& forall|i: int|
                0 <= i < objects.len() && i != id && i != PLAYER ==> objects_after[i] == objects[i]
            &&& log_after == log.push(
                Line { text: lightning_text(victim.name@, damage), color: light_blue() },
            ) + victim.death_lines(damage)
        },
        None => {
            &&& result == UseResult::Cancelled
            &&& objects_after == objects
            &&& log_after == log.push(Line { text: NO_ENEMY@, color: red() })
        },
    }
}

/// Strikes the nearest enemy in reach with lightning.
pub fn cast_lightning(
    _inventory_id: usize,
    objects: &mut [Object],
    game: &mut Game,
    fov: &FovMap,
    config: &Config,
) -> (result: UseResult)
    requires
        closest_strikable(old(objects)@, fov, config.lightning_range as int) matches Some(id)
            ==> can_strike(old(objects)@, id, config.lightning_damage as int),
    ensures
        final(game).map == old(game).map,
        final(game).inventory == old(game).inventory,
        final(game).dungeon_level == old(game).dungeon_level,
        lightning_cast(
            old(objects)@,
            fov,
            old(game).log@,
            final(objects)@,
            final(game).log@,
            result,
            config.lightning_range as int,
            config.lightning_damage as int,
        ),
{
    let monster_id = closest_monster(config.lightning_range, objects, fov);
    match monster_id {
        Some(monster_id) => {
            game.log.add(
                lightning_message(
                    objects[monster_id].name.as_str(),
                    config.lightning_damage as i64,
                ),
                light_blue(),
            );
            match objects[monster_id].take_damage(config.lightning_damage, game) {
                Some(xp) => {
                    match objects[PLAYER].fighter {
                        Some(f) => {
                            objects[PLAYER].fighter = Some(Fighter { xp: f.xp + xp, ..f });
                        },
                        None => {},
                    }
                },
                None => {},
            }
            UseResult::UsedUp
        },
        None => {
            game.log.add_str(NO_ENEMY, red());
            UseResult::Cancelled
        },
    }
}

/// The behaviour of a monster that has just been confused for `turns`
/// turns: confusion laid over what it was under any confusion it was in,
/// or over the basic behaviour if it had none.
pub open spec fn confusion(ai: Option<Ai>, turns: i32) -> Ai {
    Ai::Confused {
        previous_ai: Box::new(
            match ai {
                Some(ai) => ai.root(),
                None => Ai::Basic,
            },
        ),
        num_turns: turns,
    }
}

/// Confusion never lies more than one layer deep, whatever the monster was
/// before, and when it has worn off the monster is what it was under it.
pub proof fn lemma_confusion_is_flat(ai: Option<Ai>, turns: i32)
    ensures
        confusion(ai, turns).is_flat(),
        confusion(ai, turns).root() == match ai {
            Some(ai) => ai.root(),
            None => Ai::Basic,
        },
{
    let under = match ai {
        Some(ai) => ai.root(),
        None => Ai::Basic,
    };
    match ai {
        Some(ai) => {
            lemma_root_is_clear(ai);
        },
        None => {},
    }
    lemma_root_is_clear(under);
    assert(confusion(ai, turns) == (Ai::Confused { previous_ai: Box::new(under), num_turns: turns }));
    assert(confusion(ai, turns).root() == under.root());
}

/// What a scroll of confusion does to the chosen monster; without a monster
/// chosen the scroll is kept.
pub open spec fn confuse_cast(
    objects: Seq<Object>,
    log: Seq<Line>,
    objects_after: Seq<Object>,
    log_after: Seq<Line>,
    result: UseResult,
    target: Option<usize>,
    turns: i32,
) -> bool {
    match target {
        Some(id) => {
            let victim = objects[id as int];
            &&& result == UseResult::UsedUp
            &&& objects_after == objects.update(
                id as int,
                Object { ai: Some(confusion(victim.ai, turns)), ..victim },
            )
            &&& log_after == log.push(
                Line { text: confused_text(victim.name@), color: light_green() },
            )
        },
        None => {
            &&& result == UseResult::Cancelled
            &&& objects_after == objects
            &&& log_after == log.push(Line { text: NO_ENEMY@, color: red() })
        },
    }
}

/// Confuses the monster the player has chosen, for the configured number
/// of turns. A monster that is confused already starts over: it never
/// carries more than one layer of confusion.
pub fn cast_confuse(
    _inventory_id: usize,
    objects: &mut [Object],
    game: &mut Game,
    config: &Config,
    target: Option<usize>,
) -> (result: UseResult)
    requires
        target matches Some(id) ==> id < old(objects)@.len(),
    ensures
        final(game).map == old(game).map,
        final(game).inventory == old(game).inventory,
        final(game).dungeon_level == old(game).dungeon_level,
        confuse_cast(
            old(objects)@,
            old(game).log@,
            final(objects)@,
            final(game).log@,
            result,
            target,
            config.confuse_num_turns,
        ),
{
    match target {
        Some(monster_id) => {
            let old_ai = match objects[monster_id].ai.take() {
                Some(ai) => ai.into_root(),
                None => Ai::Basic,
            };
            objects[monster_id].ai = Some(
                Ai::Confused { previous_ai: Box::new(old_ai), num_turns: config.confuse_num_turns },
            );
            game.log.add(confused_message(objects[monster_id].name.as_str()), light_green());
            assert(objects@ =~= old(objects)@.update(
                monster_id as int,
                Object {
                    ai: Some(confusion(old(objects)@[monster_id as int].ai, config.confuse_num_turns)),
                    ..old(objects)@[monster_id as int]
                },
            ));
            UseResult::UsedUp
        },
        None => {
            game.log.add_str(NO_ENEMY, red());
            UseResult::Cancelled
        },
    }
}

/// The fireball that goes off at `(x, y)` burns this object: it can fight
/// and is no further away than the radius.
pub open spec fn burns(o: Object, x: int, y: int, radius: int) -> bool {
    &&& o.fighter is Some
    &&& radius >= 0
    &&& dist_sq(o.x as int, o.y as int, x, y) <= radius * radius
}

/// `after` is the object `before` once the fireball has gone off.
pub open spec fn scorched(before: Object, after: Object, x: int, y: int, radius: int, damage: int) -> bool {
    if burns(before, x, y, radius) {
        before.took_damage(after, damage)
    } else {
        after == before
    }
}

/// What the log gains from the victims of a fireball, object by object:
/// that it was burned, and that it died if it did.
pub open spec fn fireball_lines(objects: Seq<Object>, x: int, y: int, radius: int, damage: int) -> Seq<
    Line,
>
    decreases objects.len(),
{
    if objects.len() == 0 {
        Seq::empty()
    } else {
        let rest = fireball_lines(objects.drop_last(), x, y, radius, damage);
        let o = objects.last();
        if burns(o, x, y, radius) {
            rest.push(Line { text: burned_text(o.name@, damage), color: orange() }) + o.death_lines(
                damage,
            )
        } else {
            rest
        }
    }
}

/// Whether object `id` is killed by the fireball and is not the player.
pub open spec fn fireball_kill(objects: Seq<Object>, id: int, x: int, y: int, radius: int, damage: int) -> bool {
    id != PLAYER && burns(objects[id], x, y, radius) && objects[id].dies_from(damage)
}

/// Experience the player gains from a fireball: what its victims were
/// worth, the player's own death not counted.
pub open spec fn fireball_xp(objects: Seq<Object>, x: int, y: int, radius: int, damage: int) -> int
    decreases objects.len(),
{
    if objects.len() == 0 {
        0
    } else {
        fireball_xp(objects.drop_last(), x, y, radius, damage) + if fireball_kill(
            objects,
            objects.len() - 1,
            x,
            y,
            radius,
            damage,
        ) {
            objects.last().fighter->0.xp as int
        } else {
            0
        }
    }
}

/// The experience gained from the first objects is no more than that
/// gained from all of them, where no reward is negative.
pub proof fn lemma_fireball_xp_grows(
    objects: Seq<Object>,
    count: int,
    x: int,
    y: int,
    radius: int,
    damage: int,
)
    requires
        0 <= count <= objects.len(),
        forall|i: int|
            0 <= i < objects.len() ==> ((#[trigger] objects[i]).fighter matches Some(f) ==> f.xp
                >= 0),
    ensures
        0 <= fireball_xp(objects.subrange(0, count), x, y, radius, damage) <= fireball_xp(
            objects,
            x,
            y,
            radius,
            damage,
        ),
    decreases objects.len() - count,
{
    if count == objects.len() {
        assert(objects.subrange(0, count) =~= objects);
        lemma_fireball_xp_positive(objects, x, y, radius, damage);
    } else {
        lemma_fireball_xp_grows(objects, count + 1, x, y, radius, damage);
        let longer = objects.subrange(0, count + 1);
        assert(longer.drop_last() =~= objects.subrange(0, count));
        assert(longer.last() == objects[count]);
        lemma_fireball_xp_positive(objects.subrange(0, count), x, y, radius, damage);
    }
}

/// Without negative rewards no experience is lost to a fireball.
pub proof fn lemma_fireball_xp_positive(objects: Seq<Object>, x: int, y: int, radius: int, damage: int)
    requires
        forall|i: int|
            0 <= i < objects.len() ==> ((#[trigger] objects[i]).fighter matches Some(f) ==> f.xp
                >= 0),
    ensures
        0 <= fireball_xp(objects, x, y, radius, damage),
    decreases objects.len(),
{
    if objects.len() > 0 {
        let rest = objects.drop_last();
        assert forall|i: int| 0 <= i < rest.len() implies ((#[trigger] rest[i]).fighter matches Some(
            f,
        ) ==> f.xp >= 0) by {
            assert(rest[i] == objects[i]);
        }
        lemma_fireball_xp_positive(rest, x, y, radius, damage);
        assert(objects.last() == objects[objects.len() - 1]);
    }
}

/// A fireball at `(x, y)` can be computed in machine integers: the player
/// is the fighter whose death is the player's, no reward is negative, every
/// victim's hit points have room for the damage, and the player's
/// experience has room for all the rewards together.
pub open spec fn can_burn(objects: Seq<Object>, x: int, y: int, radius: int, damage: int) -> bool {
    &&& objects.len() >= 1
    &&& objects[PLAYER as int].owns_inventory()
    &&& forall|i: int|
        0 <= i < objects.len() ==> ((#[trigger] objects[i]).fighter matches Some(f) ==> f.xp >= 0
            && (burns(objects[i], x, y, radius) ==> hp_after(f.hp as int, damage) >= i32::MIN))
    &&& objects[PLAYER as int].fighter->0.xp + fireball_xp(objects, x, y, radius, damage)
        <= i32::MAX
}

/// What a scroll of fireball does when it is thrown at the chosen tile:
/// everyone who can fight and is within the radius, the player included,
/// takes the damage, and the player gains the experience of those it
/// kills. Without a tile chosen nothing happens and the scroll is kept.
pub open spec fn fireball_cast(
    objects: Seq<Object>,
    log: Seq<Line>,
    objects_after: Seq<Object>,
    log_after: Seq<Line>,
    result: UseResult,
    target: Option<(i32, i32)>,
    radius: int,
    damage: int,
) -> bool {
    match target {
        Some(tile) => {
            let x = tile.0 as int;
            let y = tile.1 as int;
            &&& result == UseResult::UsedUp
            &&& objects_after.len() == objects.len()
            &&& forall|i: int|
                0 <= i < objects.len() && i != PLAYER ==> scorched(
                    objects[i],
                    #[trigger] objects_after[i],
                    x,
                    y,
                    radius,
                    damage,
                )
            &&& exists|burnt: Object| #[trigger]
                scorched(objects[PLAYER as int], burnt, x, y, radius, damage)
                    && objects_after[PLAYER as int] == burnt.credited(
                    fireball_xp(objects, x, y, radius, damage),
                )
            &&& log_after == log.push(Line { text: fireball_text(radius), color: orange() })
                + fireball_lines(objects, x, y, radius, damage)
        },
        None => result == UseResult::Cancelled && objects_after == objects && log_after == log,
    }
}

/// Throws a fireball at the tile the player has chosen.
pub fn cast_fireball(
    _inventory_id: usize,
    objects: &mut [Object],
    game: &mut Game,
    config: &Config,
    target: Option<(i32, i32)>,
) -> (result: UseResult)
    requires
        target matches Some(tile) ==> can_burn(
            old(objects)@,
            tile.0 as int,
            tile.1 as int,
            config.fireball_radius as int,
            config.fireball_damage as int,
        ),
    ensures
        final(game).map == old(game).map,
        final(game).inventory == old(game).inventory,
        final(game).dungeon_level == old(game).dungeon_level,
        fireball_cast(
            old(objects)@,
            old(game).log@,
            final(objects)@,
            final(game).log@,
            result,
            target,
            config.fireball_radius as int,
            config.fireball_damage as int,
        ),
{
    let (x, y) = match target {
        Some(tile_pos) => tile_pos,
        None => {
            return UseResult::Cancelled;
        },
    };
    let radius: i128 = config.fireball_radius as i128;
    let damage: i32 = config.fireball_damage;
    assert(0 <= radius * radius <= 0x1_0000_0000_0000_0000) by (nonlinear_arith)
        requires
            -0x1_0000_0000 <= radius <= 0x1_0000_0000,
    ;
    let radius_squared: i128 = radius * radius;
    game.log.add(fireball_message(config.fireball_radius as i64), orange());
    let ghost start = old(objects)@;
    let ghost first_line = game.log@;
    let mut xp_to_gain: i32 = 0;
    let mut id: usize = 0;
    assert(start.subrange(0, 0) =~= Seq::<Object>::empty());
    assert(game.log@ =~= first_line + fireball_lines(
        start.subrange(0, 0),
        x as int,
        y as int,
        radius as int,
        damage as int,
    ));
    while id < objects.len()
        invariant
            id <= objects@.len(),
            objects@.len() == start.len(),
            start == old(objects)@,
            radius == config.fireball_radius,
            damage == config.fireball_damage,
            radius_squared == radius * radius,
            can_burn(start, x as int, y as int, radius as int, damage as int),
            game.map == old(game).map,
            game.inventory == old(game).inventory,
            game.dungeon_level == old(game).dungeon_level,
            forall|i: int|
                0 <= i < id ==> scorched(
                    start[i],
                    #[trigger] objects@[i],
                    x as int,
                    y as int,
                    radius as int,
                    damage as int,
                ),
            forall|i: int| id <= i < start.len() ==> #[trigger] objects@[i] == start[i],
            game.log@ == first_line + fireball_lines(
                start.subrange(0, id as int),
                x as int,
                y as int,
                radius as int,
                damage as int,
            ),
            xp_to_gain == fireball_xp(
                start.subrange(0, id as int),
                x as int,
                y as int,
                radius as int,
                damage as int,
            ),
        decreases objects@.len() - id,
    {
        let ghost prefix = start.subrange(0, id as int);
        let ghost longer = start.subrange(0, id + 1);
        proof {
            assert(longer.drop_last() =~= prefix);
            assert(longer.last() == start[id as int]);
            assert(objects@[id as int] == start[id as int]);
            lemma_fireball_xp_grows(start, id + 1, x as int, y as int, radius as int, damage as int);
            lemma_fireball_xp_positive(prefix, x as int, y as int, radius as int, damage as int);
        }
        let near = radius >= 0 && distance_squared(objects[id].x, objects[id].y, x, y)
            <= radius_squared;
        if near && objects[id].fighter.is_some() {
            game.log.add(burned_message(objects[id].name.as_str(), damage as i64), orange());
            match objects[id].take_damage(damage, game) {
                Some(xp) => {
                    if id != PLAYER {
                        xp_to_gain = xp_to_gain + xp;
                    }
                },
                None => {},
            }
            assert(game.log@ =~= first_line + fireball_lines(
                longer,
                x as int,
                y as int,
                radius as int,
                damage as int,
            ));
        }
        id = id + 1;
    }
    proof {
        assert(start.subrange(0, id as int) =~= start);
    }
    let ghost burnt = objects@[PLAYER as int];
    match objects[PLAYER].fighter {
        Some(f) => {
            objects[PLAYER].fighter = Some(Fighter { xp: f.xp + xp_to_gain, ..f });
        },
        None => {},
    }
    proof {
        assert(scorched(start[PLAYER as int], burnt, x as int, y as int, radius as int, damage as int));
        assert(objects@[PLAYER as int] == burnt.credited(xp_to_gain as int));
    }
    UseResult::UsedUp
}

} // verus!
