use vstd::prelude::*;
use vstd::string::*;
use crate::colors::{light_cyan, white};
use crate::config::Config;
use crate::entity::{Item, Object, UseResult, PLAYER};
use crate::fov::FovMap;
use crate::helper::{closest_strikable, toggle_equipment, toggled};
use crate::messages::{
    cannot_use_message, cannot_use_text, CANCELLED, CONFUSE_PROMPT, FIREBALL_PROMPT,
};
use crate::session::{Game, Line};
use crate::spells::{
    can_burn, can_strike, cast_confuse, cast_fireball, cast_heal, cast_lightning, confuse_cast,
    fireball_cast, heal_cast, lightning_cast,
};

verus! {

/// What the player has to point at before an item can be used.
#[derive(Clone, Copy, Debug, PartialEq, Eq, Structural)]
pub enum Targeting {
    /// Nothing: the item finds its own target or needs none.
    NotNeeded,
    /// An enemy no further from the player than `max_range`.
    Monster { max_range: i32 },
    /// Any tile in sight.
    Tile,
}

/// What the player pointed at.
#[derive(Clone, Copy, Debug, PartialEq, Eq, Structural)]
pub enum Target {
    /// Nothing: no target was asked for, or the player called it off.
    Nothing,
    /// The entity with this index.
    Monster(usize),
    /// The tile at these coordinates.
    Tile(i32, i32),
}

impl Target {
    /// The entity pointed at, if it is one.
    pub open spec fn monster(self) -> Option<usize> {
        match self {
            Target::Monster(id) => Some(id),
            _ => None,
        }
    }

    /// The tile pointed at, if it is one.
    pub open spec fn tile(self) -> Option<(i32, i32)> {
        match self {
            Target::Tile(x, y) => Some((x, y)),
            _ => None,
        }
    }
}

/// What has to be pointed at for an item of this kind, if anything.
pub open spec fn targeting_of(item: Option<Item>, config: &Config) -> Targeting {
    match item {
        Some(Item::Confuse) => Targeting::Monster { max_range: config.confuse_range },
        Some(Item::Fireball) => Targeting::Tile,
        _ => Targeting::NotNeeded,
    }
}

/// What the log tells the player who has to point at something.
pub open spec fn prompt_lines(item: Option<Item>) -> Seq<Line> {
    match item {
        Some(Item::Confuse) => seq![Line { text: CONFUSE_PROMPT@, color: light_cyan() }],
        Some(Item::Fireball) => seq![Line { text: FIREBALL_PROMPT@, color: light_cyan() }],
        _ => Seq::empty(),
    }
}

/// Opens the use of the item at `inventory_id`: says what the player has to
/// point at, and logs the request to do so where there is one.
pub fn begin_use(inventory_id: usize, game: &mut Game, config: &Config) -> (targeting: Targeting)
    requires
        inventory_id < old(game).inventory@.len(),
    ensures
        targeting == targeting_of(old(game).inventory@[inventory_id as int].item, config),
        final(game).log@ == old(game).log@ + prompt_lines(
            old(game).inventory@[inventory_id as int].item,
        ),
        final(game).map == old(game).map,
        final(game).inventory == old(game).inventory,
        final(game).dungeon_level == old(game).dungeon_level,
{
    let targeting = match game.inventory[inventory_id].item {
        Some(Item::Confuse) => {
            game.log.add_str(CONFUSE_PROMPT, light_cyan());
            Targeting::Monster { max_range: config.confuse_range }
        },
        Some(Item::Fireball) => {
            game.log.add_str(FIREBALL_PROMPT, light_cyan());
            Targeting::Tile
        },
        _ => Targeting::NotNeeded,
    };
    assert(game.log@ =~= old(game).log@ + prompt_lines(
        old(game).inventory@[inventory_id as int].item,
    ));
    targeting
}

/// The effect of an item of kind `item` can be computed in machine
/// integers.
pub open spec fn can_use(
    item: Item,
    target: Target,
    objects: Seq<Object>,
    game: &Game,
    fov: &FovMap,
    config: &Config,
) -> bool {
    match item {
        Item::Heal => {
            &&& objects.len() >= 1
            &&& objects[PLAYER as int].in_limits()
            &&& game.inventory_in_limits()
            &&& objects[PLAYER as int].fighter matches Some(f) ==> i32::MIN <= f.hp
                + config.heal_amount <= i32::MAX
        },
        Item::Lightning => closest_strikable(objects, fov, config.lightning_range as int) matches Some(
            id,
        ) ==> can_strike(objects, id, config.lightning_damage as int),
        Item::Confuse => target.monster() matches Some(id) ==> id < objects.len(),
        Item::Fireball => target.tile() matches Some(tile) ==> can_burn(
            objects,
            tile.0 as int,
            tile.1 as int,
            config.fireball_radius as int,
            config.fireball_damage as int,
        ),
        Item::Sword => true,
        Item::Shield => true,
    }
}

/// What an item of kind `item`, held at `id` in the inventory, does when
/// it is used.
pub open spec fn item_used(
    item: Item,
    target: Target,
    id: int,
    fov: &FovMap,
    config: &Config,
    objects: Seq<Object>,
    inventory: Seq<Object>,
    log: Seq<Line>,
    objects_after: Seq<Object>,
    inventory_after: Seq<Object>,
    log_after: Seq<Line>,
    result: UseResult,
) -> bool {
    match item {
        Item::Heal => inventory_after == inventory && heal_cast(
            objects,
            inventory,
            log,
            objects_after,
            log_after,
            result,
            config.heal_amount as int,
        ),
        Item::Lightning => inventory_after == inventory && lightning_cast(
            objects,
            fov,
            log,
            objects_after,
            log_after,
            result,
            config.lightning_range as int,
            config.lightning_damage as int,
        ),
        Item::Confuse => inventory_after == inventory && confuse_cast(
            objects,
            log,
            objects_after,
            log_after,
            result,
            target.monster(),
            config.confuse_num_turns,
        ),
        Item::Fireball => inventory_after == inventory && fireball_cast(
            objects,
            log,
            objects_after,
            log_after,
            result,
            target.tile(),
            config.fireball_radius as int,
            config.fireball_damage as int,
        ),
        Item::Sword => objects_after == objects && toggled(
            inventory,
            log,
            inventory_after,
            log_after,
            id,
            result,
        ),
        Item::Shield => objects_after == objects && toggled(
            inventory,
            log,
            inventory_after,
            log_after,
            id,
            result,
        ),
    }
}

/// What using the item at `id` of the inventory does. An item that is
/// used up leaves the inventory; a use that is cancelled is logged as
/// such; something that has no use is refused, which is logged too.
pub open spec fn used(
    target: Target,
    id: int,
    fov: &FovMap,
    config: &Config,
    objects: Seq<Object>,
    inventory: Seq<Object>,
    log: Seq<Line>,
    objects_after: Seq<Object>,
    inventory_after: Seq<Object>,
    log_after: Seq<Line>,
    result: UseResult,
) -> bool {
    match inventory[id].item {
        None => {
            &&& result == UseResult::Cancelled
            &&& objects_after == objects
            &&& inventory_after == inventory
            &&& log_after == log.push(
                Line { text: cannot_use_text(inventory[id].name@), color: white() },
            )
        },
        Some(item) => match result {
            UseResult::UsedUp => {
                &&& item_used(
                    item,
                    target,
                    id,
                    fov,
                    config,
                    objects,
                    inventory,
                    log,
                    objects_after,
                    inventory,
                    log_after,
                    result,
                )
                &&& inventory_after == inventory.remove(id)
            },
            UseResult::UsedAndKept => item_used(
                item,
                target,
                id,
                fov,
                config,
                objects,
                inventory,
                log,
                objects_after,
                inventory_after,
                log_after,
                result,
            ),
            UseResult::Cancelled => {
                &&& log_after.len() > 0
                &&& log_after.last() == (Line { text: CANCELLED@, color: white() })
                &&& item_used(
                    item,
                    target,
                    id,
                    fov,
                    config,
                    objects,
                    inventory,
                    log,
                    objects_after,
                    inventory_after,
                    log_after.drop_last(),
                    result,
                )
            },
        },
    }
}

/// Uses the item at `inventory_id` on what the player pointed at.
pub fn use_item(
    inventory_id: usize,
    objects: &mut [Object],
    game: &mut Game,
    fov: &FovMap,
    config: &Config,
    target: Target,
) -> (result: UseResult)
    requires
        inventory_id < old(game).inventory@.len(),
        old(game).inventory@[inventory_id as int].item matches Some(item) ==> can_use(
            item,
            target,
            old(objects)@,
            old(game),
            fov,
            config,
        ),
    ensures
        final(game).map == old(game).map,
        final(game).dungeon_level == old(game).dungeon_level,
        used(
            target,
            inventory_id as int,
            fov,
            config,
            old(objects)@,
            old(game).inventory@,
            old(game).log@,
            final(objects)@,
            final(game).inventory@,
            final(game).log@,
            result,
        ),
{
    match game.inventory[inventory_id].item {
        Some(item) => {
            let monster = match target {
                Target::Monster(id) => Some(id),
                _ => None,
            };
            let tile = match target {
                Target::Tile(x, y) => Some((x, y)),
                _ => None,
            };
            let result = match item {
                Item::Heal => cast_heal(inventory_id, objects, game, config),
                Item::Lightning => cast_lightning(inventory_id, objects, game, fov, config),
                Item::Confuse => cast_confuse(inventory_id, objects, game, config, monster),
                Item::Fireball => cast_fireball(inventory_id, objects, game, config, tile),
                Item::Sword => toggle_equipment(inventory_id, objects, game),
                Item::Shield => toggle_equipment(inventory_id, objects, game),
            };
            let ghost used_log = game.log@;
            match result {
                UseResult::UsedUp => {
                    assert(game.inventory@ == old(game).inventory@);
                    game.inventory.remove(inventory_id);
                },
                UseResult::UsedAndKept => {},
                UseResult::Cancelled => {
                    game.log.add_str(CANCELLED, white());
                    assert(game.log@.drop_last() =~= used_log);
                },
            }
            result
        },
        None => {
            game.log.add(
                cannot_use_message(game.inventory[inventory_id].name.as_str()),
                white(),
            );
            UseResult::Cancelled
        },
    }
}

} // verus!
