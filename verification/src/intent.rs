use vstd::prelude::*;
use vstd::string::*;
use crate::colors::{red, sky, violet, white};
use crate::combat::{hp_after, lemma_effective_bounded, Stat};
use crate::config::Config;
use crate::entity::{
    DeathCallback, Equipment, Fighter, Item, Object, PlayerAction, Slot, UseResult, PLAYER,
    STAT_LIMIT,
};
use crate::fov::FovMap;
use crate::helper::{
    blocked_at, can_move_or_attack, closest_strikable, drop_item, dropped, fighter_at, first_fights_at, is_closest,
    level_up_xp, pick_item_up, picked_up, player_move_or_attack, stepped,
};
use crate::items::{can_use, use_item, used, Target};
use crate::mapgen::{laid_out, make_map, stocked};
use crate::messages::{DESCEND, REST, WELCOME};
use crate::paths::connected;
use crate::session::{Game, Line, Messages};
use crate::spawn::{
    is_item_object, is_level_item, is_level_monster, is_monster, is_spawn, is_stairs, item_chance,
    monster_chance, MonsterKind,
};
use crate::spells::{burns, fireball_xp, scorched};
use crate::text::{append_decimal, decimal};
use crate::tile::{half, midpoint, LevelMap, Rect};
use crate::turn::{able, arranged, in_order, sound, within_limits};

verus! {

/// What the player wants to do with a turn.
#[derive(Clone, Copy, Debug, PartialEq, Eq, Structural)]
pub enum PlayerIntent {
    /// Step, or attack, in one of the eight directions.
    Move(i32, i32),
    /// Let the turn pass.
    Wait,
    /// Pick up what lies underfoot.
    PickUp,
    /// Use the item in this inventory slot on this target.
    UseItem(usize, Target),
    /// Drop the item in this inventory slot.
    DropItem(usize),
    /// Take the stairs down, if the player stands on them.
    Descend,
    /// Look at the character sheet.
    ShowCharacterSheet,
    /// Leave the game.
    Exit,
    /// Anything else: nothing happens.
    Nothing,
}

/// The intent can be carried out: a move is a single step in one of the
/// eight directions, inventory slots exist, and a monster pointed at
/// exists, can fight and is not the player.
pub open spec fn intent_valid(intent: PlayerIntent, game: &Game, objects: Seq<Object>) -> bool {
    match intent {
        PlayerIntent::Move(dx, dy) => -1 <= dx <= 1 && -1 <= dy <= 1 && !(dx == 0 && dy == 0),
        PlayerIntent::UseItem(slot, target) => {
            &&& slot < game.inventory@.len()
            &&& target matches Target::Monster(id) ==> id < objects.len() && id != PLAYER
                && objects[id as int].fighter is Some
        },
        PlayerIntent::DropItem(slot) => slot < game.inventory@.len(),
        _ => true,
    }
}

/// Whether the intent can be carried out.
pub fn intent_is_valid(intent: PlayerIntent, game: &Game, objects: &[Object]) -> (b: bool)
    ensures
        b == intent_valid(intent, game, objects@),
{
    match intent {
        PlayerIntent::Move(dx, dy) => -1 <= dx && dx <= 1 && -1 <= dy && dy <= 1 && !(dx == 0 && dy
            == 0),
        PlayerIntent::UseItem(slot, target) => {
            let target_ok = match target {
                Target::Monster(id) => id < objects.len() && id != PLAYER
                    && objects[id].fighter.is_some(),
                _ => true,
            };
            slot < game.inventory.len() && target_ok
        },
        PlayerIntent::DropItem(slot) => slot < game.inventory.len(),
        _ => true,
    }
}

/// How an intent counts. Leaving the game is an exit whatever the state.
/// A dead player does nothing. Of what a living player does, only moving,
/// attacking and waiting take the turn.
pub open spec fn intent_outcome(intent: PlayerIntent, alive: bool) -> PlayerAction {
    match intent {
        PlayerIntent::Exit => PlayerAction::Exit,
        PlayerIntent::Move(dx, dy) => if alive {
            PlayerAction::TookTurn
        } else {
            PlayerAction::DidntTakeTurn
        },
        PlayerIntent::Wait => if alive {
            PlayerAction::TookTurn
        } else {
            PlayerAction::DidntTakeTurn
        },
        _ => PlayerAction::DidntTakeTurn,
    }
}

/// Object `index` is an item that lies where the player stands.
pub open spec fn lies_here(objects: Seq<Object>, index: int) -> bool {
    &&& 0 <= index < objects.len()
    &&& objects[index].item is Some
    &&& objects[index].at(objects[PLAYER as int].x as int, objects[PLAYER as int].y as int)
}

/// Object `index` is the first item that lies where the player stands.
pub open spec fn first_lies_here(objects: Seq<Object>, index: int) -> bool {
    lies_here(objects, index) && forall|j: int| 0 <= j < index ==> !lies_here(objects, j)
}

/// Index of the first item that lies where the player stands.
pub open spec fn item_here(objects: Seq<Object>) -> Option<int> {
    if exists|i: int| first_lies_here(objects, i) {
        Some(choose|i: int| first_lies_here(objects, i))
    } else {
        None
    }
}

fn find_item_here(objects: &[Object]) -> (found: Option<usize>)
    requires
        objects@.len() >= 1,
    ensures
        match found {
            Some(i) => lies_here(objects@, i as int) && item_here(objects@) == Some(i as int),
            None => item_here(objects@).is_none(),
        },
{
    let mut i: usize = 0;
    while i < objects.len()
        invariant
            i <= objects@.len(),
            objects@.len() >= 1,
            forall|j: int| 0 <= j < i ==> !lies_here(objects@, j),
        decreases objects@.len() - i,
    {
        if objects[i].x == objects[PLAYER].x && objects[i].y == objects[PLAYER].y
            && objects[i].item.is_some() {
            assert(first_lies_here(objects@, i as int));
            return Some(i);
        }
        i = i + 1;
    }
    None
}

/// The player stands on the stairs: something named "stairs" is where the
/// player is.
pub open spec fn on_stairs(objects: Seq<Object>) -> bool {
    exists|i: int|
        0 <= i < objects.len() && (#[trigger] objects[i]).at(
            objects[PLAYER as int].x as int,
            objects[PLAYER as int].y as int,
        ) && objects[i].name@ == "stairs"@
}

fn player_on_stairs(objects: &[Object]) -> (b: bool)
    requires
        objects@.len() >= 1,
    ensures
        b == on_stairs(objects@),
{
    let stairs = String::from_str("stairs");
    let mut i: usize = 0;
    while i < objects.len()
        invariant
            i <= objects@.len(),
            objects@.len() >= 1,
            stairs@ == "stairs"@,
            forall|j: int|
                0 <= j < i ==> !((#[trigger] objects@[j]).at(
                    objects@[PLAYER as int].x as int,
                    objects@[PLAYER as int].y as int,
                ) && objects@[j].name@ == "stairs"@),
        decreases objects@.len() - i,
    {
        if objects[i].x == objects[PLAYER].x && objects[i].y == objects[PLAYER].y && objects[i].name
            == stairs {
            return true;
        }
        i = i + 1;
    }
    false
}

/// What taking the stairs does. The player rests, which restores half of
/// the effective maximum of hit points, and descends; both are logged.
/// The dungeon level goes up by one and a new level is generated around
/// the player, in which a walk over open tiles leads from the player to
/// the stairs.
pub open spec fn descended(
    config: &Config,
    objects: Seq<Object>,
    inventory: Seq<Object>,
    log: Seq<Line>,
    level: u32,
    objects_after: Seq<Object>,
    map_after: &LevelMap,
    log_after: Seq<Line>,
    level_after: u32,
) -> bool {
    let player = objects[PLAYER as int];
    let rested = player.healed(half(player.effective(inventory, Stat::MaxHp)), inventory);
    &&& level_after == level + 1
    &&& log_after == log.push(Line { text: REST@, color: violet() }).push(
        Line { text: DESCEND@, color: red() },
    )
    &&& map_after.width() == config.map_width
    &&& map_after.height() == config.map_height
    &&& exists|rooms: Seq<Rect>|
        1 <= rooms.len() <= config.max_rooms && #[trigger] laid_out(map_after, rooms) && stocked(
            objects.update(PLAYER as int, rested),
            objects_after,
            map_after,
            rooms,
            level_after,
        )
    &&& connected(
        map_after,
        (objects_after[PLAYER as int].x as int, objects_after[PLAYER as int].y as int),
        (objects_after.last().x as int, objects_after.last().y as int),
    )
}

/// Everything the generator makes is able, and what it puts into rooms is
/// within the limits.
proof fn lemma_spawns_are_able(o: Object, level: u32)
    requires
        is_spawn(o, level) || is_stairs(o, o.x, o.y),
    ensures
        able(o),
        o.in_limits(),
        o.fighter matches Some(f) ==> f.xp <= STAT_LIMIT,
{
    if is_level_monster(o, level) {
        let kind = choose|kind: MonsterKind|
            monster_chance(kind, level) > 0 && #[trigger] is_monster(
                o,
                kind,
                o.x,
                o.y,
            );
        assert(is_monster(o, kind, o.x, o.y));
    } else if is_level_item(o, level) {
        let item = choose|item: Item|
            item_chance(item, level) > 0 && #[trigger] is_item_object(
                o,
                item,
                o.x,
                o.y,
            );
        assert(is_item_object(o, item, o.x, o.y));
    }
}

/// A level that was generated around a player who was in order holds a
/// game in order.
proof fn lemma_generated_in_order(
    before: Seq<Object>,
    after: Seq<Object>,
    map: &LevelMap,
    inventory: Seq<Object>,
    rooms: Seq<Rect>,
    level: u32,
)
    requires
        before.len() >= 1,
        before[PLAYER as int].owns_inventory(),
        before[PLAYER as int].ai is None,
        before[PLAYER as int].item is None,
        forall|i: int| 0 <= i < inventory.len() ==> able(#[trigger] inventory[i]),
        rooms.len() >= 1,
        laid_out(map, rooms),
        stocked(before, after, map, rooms, level),
    ensures
        in_order(map, inventory, after),
{
    assert forall|i: int| 0 <= i < after.len() implies sound(#[trigger] after[i], map) by {
        assert(map.open_at(after[i].x as int, after[i].y as int));
        assert(!map.tile(after[i].x as int, after[i].y as int).blocked);
        if i == 0 {
        } else if i == after.len() - 1 {
            assert(after.last() == after[i]);
            lemma_spawns_are_able(after[i], level);
        } else {
            lemma_spawns_are_able(after[i], level);
        }
    }
}

/// The descent can be computed in machine integers: a level can be
/// generated, the dungeon has a next level to count, the player and the
/// inventory carry numbers within the limits, and the player's hit points
/// have room for the rest on the stairs.
pub open spec fn can_descend(game: &Game, objects: Seq<Object>, config: &Config) -> bool {
    let player = objects[PLAYER as int];
    &&& config.can_generate()
    &&& game.dungeon_level < u32::MAX
    &&& player.in_limits()
    &&& game.inventory_in_limits()
    &&& player.fighter matches Some(f) ==> i32::MIN <= f.hp + half(
        player.effective(game.inventory@, Stat::MaxHp),
    ) <= i32::MAX
}

/// Takes the player down the stairs.
pub fn next_level(objects: &mut Vec<Object>, game: &mut Game, config: &Config)
    requires
        arranged(old(game), old(objects)@),
        can_descend(old(game), old(objects)@, config),
    ensures
        arranged(final(game), final(objects)@),
        final(game).inventory == old(game).inventory,
        descended(
            config,
            old(objects)@,
            old(game).inventory@,
            old(game).log@,
            old(game).dungeon_level,
            final(objects)@,
            &final(game).map,
            final(game).log@,
            final(game).dungeon_level,
        ),
{
    game.log.add_str(REST, violet());
    proof {
        lemma_effective_bounded(objects@[PLAYER as int], game.inventory@, Stat::MaxHp);
    }
    let heal_hp: i32 = midpoint(objects[PLAYER].max_hp(game), 0);
    objects[PLAYER].heal(heal_hp, game);
    game.log.add_str(DESCEND, red());
    game.dungeon_level = game.dungeon_level + 1;
    let ghost rested = objects@;
    assert(rested =~= old(objects)@.update(PLAYER as int, rested[PLAYER as int]));
    let map = make_map(objects, game.dungeon_level, config);
    proof {
        let rooms = choose|rooms: Seq<Rect>|
            1 <= rooms.len() <= config.max_rooms && #[trigger] laid_out(&map, rooms) && stocked(
                rested,
                objects@,
                &map,
                rooms,
                game.dungeon_level,
            );
        lemma_generated_in_order(
            rested,
            objects@,
            &map,
            game.inventory@,
            rooms,
            game.dungeon_level,
        );
    }
    game.map = map;
}

/// The dagger a new player carries: worn in the left hand from the start.
pub open spec fn is_dagger(o: Object) -> bool {
    &&& o.name@ == "dagger"@
    &&& o == (Object {
        x: 0,
        y: 0,
        glyph: '-',
        color: sky(),
        name: o.name,
        blocks: false,
        alive: false,
        fighter: None,
        ai: None,
        item: Some(Item::Sword),
        equipment: Some(
            Equipment {
                equipped: true,
                slot: Slot::LeftHand,
                max_hp_bonus: 0,
                defense_bonus: 0,
                power_bonus: 2,
            },
        ),
        emitter: None,
        always_visible: false,
        level: 1,
        fov_radius: 0,
    })
}

/// The player of a new game, apart from where the player stands.
pub open spec fn is_new_player(o: Object) -> bool {
    &&& o.name@ == "player"@
    &&& o == (Object {
        x: o.x,
        y: o.y,
        glyph: '@',
        color: white(),
        name: o.name,
        blocks: true,
        alive: true,
        fighter: Some(
            Fighter {
                base_max_hp: 100,
                hp: 100,
                base_defense: 1,
                base_power: 2,
                xp: 0,
                on_death: DeathCallback::Player,
            },
        ),
        ai: None,
        item: None,
        equipment: None,
        emitter: None,
        always_visible: false,
        level: 1,
        fov_radius: 5,
    })
}

/// Starts a game: a new player on the first level of a new dungeon, with
/// a dagger in hand and a welcome in the log.
pub fn new_game(config: &Config) -> (started: (Vec<Object>, Game))
    requires
        config.can_generate(),
    ensures
        arranged(&started.1, started.0@),
        is_new_player(started.0@[PLAYER as int]),
        started.1.dungeon_level == 1,
        started.1.inventory@.len() == 1,
        is_dagger(started.1.inventory@[0]),
        started.1.log@ == seq![Line { text: WELCOME@, color: red() }],
        started.1.map.width() == config.map_width,
        started.1.map.height() == config.map_height,
        exists|rooms: Seq<Rect>, nobody: Object|
            1 <= rooms.len() <= config.max_rooms && #[trigger] laid_out(&started.1.map, rooms)
                && #[trigger] stocked(seq![nobody], started.0@, &started.1.map, rooms, 1),
        connected(
            &started.1.map,
            (started.0@[PLAYER as int].x as int, started.0@[PLAYER as int].y as int),
            (started.0@.last().x as int, started.0@.last().y as int),
        ),
        forall|i: int| 0 <= i < started.0@.len() ==> (#[trigger] started.0@[i]).in_limits(),
        config.max_rooms <= 100 ==> within_limits(&started.1, started.0@),
{
    let mut player = Object::new(0, 0, '@', "player", white(), true);
    player.alive = true;
    player.fov_radius = 5;
    player.fighter = Some(
        Fighter {
            base_max_hp: 100,
            hp: 100,
            base_defense: 1,
            base_power: 2,
            on_death: DeathCallback::Player,
            xp: 0,
        },
    );
    let ghost newcomer = player;
    let mut objects: Vec<Object> = Vec::new();
    objects.push(player);
    let level: u32 = 1;
    let ghost alone = objects@;
    assert(alone =~= seq![newcomer]);
    let map = make_map(&mut objects, level, config);
    let mut dagger = Object::new(0, 0, '-', "dagger", sky(), false);
    dagger.item = Some(Item::Sword);
    dagger.equipment = Some(
        Equipment {
            equipped: true,
            slot: Slot::LeftHand,
            max_hp_bonus: 0,
            defense_bonus: 0,
            power_bonus: 2,
        },
    );
    let mut inventory: Vec<Object> = Vec::new();
    inventory.push(dagger);
    let mut log = Messages::new();
    log.add_str(WELCOME, red());
    proof {
        let rooms = choose|rooms: Seq<Rect>|
            1 <= rooms.len() <= config.max_rooms && #[trigger] laid_out(&map, rooms) && stocked(
                alone,
                objects@,
                &map,
                rooms,
                level,
            );
        lemma_generated_in_order(alone, objects@, &map, inventory@, rooms, level);
        assert(stocked(seq![newcomer], objects@, &map, rooms, 1));
        assert forall|i: int| 0 <= i < objects@.len() implies (#[trigger] objects@[i]).in_limits()
            && (i >= 1 ==> (objects@[i].fighter matches Some(f) ==> f.xp <= STAT_LIMIT)) by {
            if i == 0 {
            } else if i == objects@.len() - 1 {
                assert(objects@.last() == objects@[i]);
                lemma_spawns_are_able(objects@[i], level);
            } else {
                lemma_spawns_are_able(objects@[i], level);
            }
        }
        assert(inventory@[0].in_limits());
        assert(log@ =~= seq![Line { text: WELCOME@, color: red() }]);
    }
    (objects, Game { map: map, log: log, inventory: inventory, dungeon_level: level })
}

/// What the character sheet says.
pub open spec fn sheet_text(level: int, xp: int, to_level_up: int, max_hp: int, power: int, defense: int) -> Seq<
    char,
> {
    "Character information\n\nLevel: "@ + decimal(level) + "\nExperience: "@ + decimal(xp)
        + "\nExperience to level up: "@ + decimal(to_level_up) + "\n\nMaximum HP: "@ + decimal(
        max_hp,
    ) + "\nAttack: "@ + decimal(power) + "\nDefense: "@ + decimal(defense)
}

/// Writes the character sheet of the player: level, experience, the
/// experience that the next level takes, and the effective statistics.
pub fn character_sheet(objects: &[Object], game: &Game, config: &Config) -> (sheet: String)
    requires
        objects@.len() >= 1,
        objects@[PLAYER as int].fighter is Some,
        objects@[PLAYER as int].in_limits(),
        game.inventory_in_limits(),
    ensures
        sheet@ == sheet_text(
            objects@[PLAYER as int].level as int,
            objects@[PLAYER as int].fighter->0.xp as int,
            level_up_xp(objects@[PLAYER as int].level as int, config),
            objects@[PLAYER as int].effective(game.inventory@, Stat::MaxHp),
            objects@[PLAYER as int].effective(game.inventory@, Stat::Power),
            objects@[PLAYER as int].effective(game.inventory@, Stat::Defense),
        ),
{
    let player = &objects[PLAYER];
    let level: i64 = player.level as i64;
    let factor: i64 = config.level_up_factor as i64;
    assert(-1_000_000 * 0x8000_0000 <= level * factor <= 1_000_000 * 0x8000_0000)
        by (nonlinear_arith)
        requires
            0 <= level <= 1_000_000,
            -0x8000_0000 <= factor <= 0x8000_0000,
    ;
    let level_up: i64 = config.level_up_base as i64 + level * factor;
    let xp: i32 = match player.fighter {
        Some(f) => f.xp,
        None => 0,
    };
    let mut sheet = String::from_str("Character information\n\nLevel: ");
    append_decimal(&mut sheet, level);
    sheet.append("\nExperience: ");
    append_decimal(&mut sheet, xp as i64);
    sheet.append("\nExperience to level up: ");
    append_decimal(&mut sheet, level_up);
    sheet.append("\n\nMaximum HP: ");
    append_decimal(&mut sheet, player.max_hp(game) as i64);
    sheet.append("\nAttack: ");
    append_decimal(&mut sheet, player.power(game) as i64);
    sheet.append("\nDefense: ");
    append_decimal(&mut sheet, player.defense(game) as i64);
    sheet
}

/// Nothing has happened.
pub open spec fn unchanged(
    objects: Seq<Object>,
    game: &Game,
    objects_after: Seq<Object>,
    game_after: &Game,
) -> bool {
    &&& objects_after == objects
    &&& game_after.map == game.map
    &&& game_after.log@ == game.log@
    &&& game_after.inventory@ == game.inventory@
    &&& game_after.dungeon_level == game.dungeon_level
}

/// What carrying out an intent does to the game. An exit changes nothing
/// and neither does anything a dead player wants. A living player steps or
/// attacks, picks up the first item underfoot if there is one, uses or
/// drops an item, or takes the stairs if standing on them; waiting,
/// looking at the character sheet and anything else change nothing.
pub open spec fn applied(
    intent: PlayerIntent,
    config: &Config,
    fov: &FovMap,
    objects: Seq<Object>,
    game: &Game,
    objects_after: Seq<Object>,
    game_after: &Game,
) -> bool {
    if intent == PlayerIntent::Exit || !objects[PLAYER as int].alive {
        unchanged(objects, game, objects_after, game_after)
    } else {
        match intent {
            PlayerIntent::Move(dx, dy) => {
                &&& game_after.map == game.map
                &&& game_after.inventory@ == game.inventory@
                &&& game_after.dungeon_level == game.dungeon_level
                &&& stepped(
                    &game.map,
                    game.inventory@,
                    objects,
                    game.log@,
                    objects_after,
                    game_after.log@,
                    dx as int,
                    dy as int,
                )
            },
            PlayerIntent::PickUp => match item_here(objects) {
                Some(id) => {
                    &&& game_after.map == game.map
                    &&& game_after.dungeon_level == game.dungeon_level
                    &&& picked_up(
                        objects,
                        game.inventory@,
                        game.log@,
                        objects_after,
                        game_after.inventory@,
                        game_after.log@,
                        id,
                    )
                },
                None => unchanged(objects, game, objects_after, game_after),
            },
            PlayerIntent::UseItem(slot, target) => {
                &&& game_after.map == game.map
                &&& game_after.dungeon_level == game.dungeon_level
                &&& exists|result: UseResult| #[trigger]
                    used(
                        target,
                        slot as int,
                        fov,
                        config,
                        objects,
                        game.inventory@,
                        game.log@,
                        objects_after,
                        game_after.inventory@,
                        game_after.log@,
                        result,
                    )
            },
            PlayerIntent::DropItem(slot) => {
                &&& game_after.map == game.map
                &&& game_after.dungeon_level == game.dungeon_level
                &&& dropped(
                    objects,
                    game.inventory@,
                    game.log@,
                    objects_after,
                    game_after.inventory@,
                    game_after.log@,
                    slot as int,
                )
            },
            PlayerIntent::Descend => if on_stairs(objects) {
                &&& game_after.inventory@ == game.inventory@
                &&& descended(
                    config,
                    objects,
                    game.inventory@,
                    game.log@,
                    game.dungeon_level,
                    objects_after,
                    &game_after.map,
                    game_after.log@,
                    game_after.dungeon_level,
                )
            } else {
                unchanged(objects, game, objects_after, game_after)
            },
            _ => unchanged(objects, game, objects_after, game_after),
        }
    }
}

/// Damage leaves an object where it is and sound, and takes neither the
/// ownership of the inventory nor an item's nature away.
proof fn lemma_damage_keeps_sound(before: Object, after: Object, damage: int, map: &LevelMap)
    requires
        before.took_damage(after, damage),
    ensures
        after.x == before.x,
        after.y == before.y,
        able(before) ==> able(after),
        sound(before, map) ==> sound(after, map),
        before.owns_inventory() ==> after.owns_inventory() && after.ai == before.ai,
        after.item == before.item,
{
}

/// A step or an attack of the player leaves the game in order.
proof fn lemma_step_in_order(
    map: &LevelMap,
    inventory: Seq<Object>,
    objects: Seq<Object>,
    log: Seq<Line>,
    after: Seq<Object>,
    log_after: Seq<Line>,
    dx: int,
    dy: int,
)
    requires
        in_order(map, inventory, objects),
        -1 <= dx <= 1,
        -1 <= dy <= 1,
        !(dx == 0 && dy == 0),
        stepped(map, inventory, objects, log, after, log_after, dx, dy),
    ensures
        in_order(map, inventory, after),
{
    let player = objects[PLAYER as int];
    let x = player.x + dx;
    let y = player.y + dy;
    assert(sound(player, map));
    match fighter_at(objects, x, y) {
        Some(target) => {
            assert(first_fights_at(objects, x, y, target));
            assert(target != PLAYER);
            let victim = objects[target];
            assert(sound(victim, map));
            let damage = player.damage_to(victim, inventory);
            if damage > 0 {
                lemma_damage_keeps_sound(victim, after[target], damage, map);
            }
            assert forall|i: int| 0 <= i < after.len() implies sound(#[trigger] after[i], map) by {
                if i != PLAYER && i != target {
                    assert(after[i] == objects[i]);
                    assert(sound(objects[i], map));
                }
            }
        },
        None => {
            assert(map.in_bounds(x, y));
            if !blocked_at(map, objects, x, y) {
                assert(!map.tile(x, y).blocked);
                assert(map.interior(x, y));
            }
            assert forall|i: int| 0 <= i < after.len() implies sound(#[trigger] after[i], map) by {
                if i != PLAYER {
                    assert(after[i] == objects[i]);
                    assert(sound(objects[i], map));
                }
            }
        },
    }
}

/// Within the limits a fireball cannot overflow the player's experience:
/// what it gains is at most one monster's worth per object.
proof fn lemma_fireball_xp_bounded(objects: Seq<Object>, x: int, y: int, radius: int, damage: int)
    requires
        forall|i: int| 0 <= i < objects.len() ==> (#[trigger] objects[i]).in_limits(),
        forall|i: int|
            1 <= i < objects.len() ==> ((#[trigger] objects[i]).fighter matches Some(f) ==> f.xp
                <= STAT_LIMIT),
    ensures
        0 <= fireball_xp(objects, x, y, radius, damage) <= objects.len() * STAT_LIMIT,
    decreases objects.len(),
{
    if objects.len() > 0 {
        let rest = objects.drop_last();
        assert forall|i: int| 0 <= i < rest.len() implies (#[trigger] rest[i]).in_limits() by {
            assert(rest[i] == objects[i]);
        }
        assert forall|i: int| 1 <= i < rest.len() implies ((#[trigger] rest[i]).fighter matches Some(
            f,
        ) ==> f.xp <= STAT_LIMIT) by {
            assert(rest[i] == objects[i]);
        }
        lemma_fireball_xp_bounded(rest, x, y, radius, damage);
        let last = objects[objects.len() - 1];
        assert(objects.last() == last);
        assert(last.in_limits());
        assert(rest.len() * STAT_LIMIT + STAT_LIMIT == objects.len() * STAT_LIMIT)
            by (nonlinear_arith)
            requires
                rest.len() + 1 == objects.len(),
        ;
    }
}

/// In a game that is in order and within the limits every item can be
/// used in machine integers, on anything that may be pointed at.
proof fn lemma_can_use(
    item: Item,
    target: Target,
    objects: Seq<Object>,
    game: &Game,
    fov: &FovMap,
    config: &Config,
)
    requires
        config.amounts_in_limits(),
        arranged(game, objects),
        within_limits(game, objects),
        target matches Target::Monster(id) ==> id < objects.len(),
    ensures
        can_use(item, target, objects, game, fov, config),
{
    let player = objects[PLAYER as int];
    assert(player.in_limits());
    match item {
        Item::Lightning => {
            match closest_strikable(objects, fov, config.lightning_range as int) {
                Some(id) => {
                    assert(is_closest(
                        objects,
                        fov,
                        config.lightning_range as int,
                        id,
                    ));
                    assert(objects[id].in_limits());
                },
                None => {},
            }
        },
        Item::Fireball => {
            match target.tile() {
                Some(tile) => {
                    lemma_fireball_xp_bounded(
                        objects,
                        tile.0 as int,
                        tile.1 as int,
                        config.fireball_radius as int,
                        config.fireball_damage as int,
                    );
                    assert(objects.len() * STAT_LIMIT <= 1000 * STAT_LIMIT) by (nonlinear_arith)
                        requires
                            objects.len() <= 1000,
                    ;
                    assert forall|i: int| 0 <= i < objects.len() implies ((
                    #[trigger] objects[i]).fighter matches Some(f) ==> f.xp >= 0 && (burns(
                        objects[i],
                        tile.0 as int,
                        tile.1 as int,
                        config.fireball_radius as int,
                    ) ==> hp_after(f.hp as int, config.fireball_damage as int)
                        >= i32::MIN)) by {
                        assert(objects[i].in_limits());
                    }
                },
                None => {},
            }
        },
        _ => {},
    }
}

/// Using an item leaves the game in order.
proof fn lemma_use_in_order(
    target: Target,
    id: int,
    fov: &FovMap,
    config: &Config,
    map: &LevelMap,
    objects: Seq<Object>,
    inventory: Seq<Object>,
    log: Seq<Line>,
    after: Seq<Object>,
    inventory_after: Seq<Object>,
    log_after: Seq<Line>,
    result: UseResult,
)
    requires
        in_order(map, inventory, objects),
        0 <= id < inventory.len(),
        target matches Target::Monster(t) ==> t < objects.len() && t != PLAYER
            && objects[t as int].fighter is Some,
        used(
            target,
            id,
            fov,
            config,
            objects,
            inventory,
            log,
            after,
            inventory_after,
            log_after,
            result,
        ),
    ensures
        in_order(map, inventory_after, after),
{
    let player = objects[PLAYER as int];
    assert(sound(player, map));
    match inventory[id].item {
        None => {},
        Some(item) => {
            let kept = if result == UseResult::UsedUp {
                inventory
            } else {
                inventory_after
            };
            assert forall|i: int| 0 <= i < kept.len() implies able(#[trigger] kept[i]) by {
                match item {
                    Item::Sword => {
                        if i != id {
                            assert(kept[i] == inventory[i]);
                        } else {
                            assert(able(inventory[id]));
                        }
                    },
                    Item::Shield => {
                        if i != id {
                            assert(kept[i] == inventory[i]);
                        } else {
                            assert(able(inventory[id]));
                        }
                    },
                    _ => {
                        assert(kept[i] == inventory[i]);
                    },
                }
            }
            assert forall|i: int| 0 <= i < inventory_after.len() implies able(
                #[trigger] inventory_after[i],
            ) by {
                if result == UseResult::UsedUp {
                    if i < id {
                        assert(inventory_after[i] == inventory[i]);
                    } else {
                        assert(inventory_after[i] == inventory[i + 1]);
                    }
                } else {
                    assert(able(kept[i]));
                }
            }
            match item {
                Item::Heal => {
                    assert forall|i: int| 0 <= i < after.len() implies sound(
                        #[trigger] after[i],
                        map,
                    ) by {
                        if i != PLAYER {
                            assert(sound(objects[i], map));
                        }
                    }
                },
                Item::Lightning => {
                    match closest_strikable(
                        objects,
                        fov,
                        config.lightning_range as int,
                    ) {
                        Some(victim) => {
                            assert(is_closest(
                                objects,
                                fov,
                                config.lightning_range as int,
                                victim,
                            ));
                            assert(sound(objects[victim], map));
                            lemma_damage_keeps_sound(
                                objects[victim],
                                after[victim],
                                config.lightning_damage as int,
                                map,
                            );
                            assert forall|i: int| 0 <= i < after.len() implies sound(
                                #[trigger] after[i],
                                map,
                            ) by {
                                if i != PLAYER && i != victim {
                                    assert(after[i] == objects[i]);
                                    assert(sound(objects[i], map));
                                }
                            }
                        },
                        None => {},
                    }
                },
                Item::Confuse => {
                    match target.monster() {
                        Some(t) => {
                            assert(sound(objects[t as int], map));
                            assert forall|i: int| 0 <= i < after.len() implies sound(
                                #[trigger] after[i],
                                map,
                            ) by {
                                if i != t {
                                    assert(sound(objects[i], map));
                                }
                            }
                        },
                        None => {},
                    }
                },
                Item::Fireball => {
                    match target.tile() {
                        Some(tile) => {
                            let x = tile.0 as int;
                            let y = tile.1 as int;
                            let radius = config.fireball_radius as int;
                            let damage = config.fireball_damage as int;
                            let burnt = choose|burnt: Object| #[trigger]
                                scorched(player, burnt, x, y, radius, damage)
                                    && after[PLAYER as int] == burnt.credited(
                                    fireball_xp(objects, x, y, radius, damage),
                                );
                            if burns(player, x, y, radius) {
                                lemma_damage_keeps_sound(player, burnt, damage, map);
                            }
                            assert forall|i: int| 0 <= i < after.len() implies sound(
                                #[trigger] after[i],
                                map,
                            ) by {
                                assert(sound(objects[i], map));
                                if i != PLAYER {
                                    assert(scorched(
                                        objects[i],
                                        after[i],
                                        x,
                                        y,
                                        radius,
                                        damage,
                                    ));
                                    if burns(objects[i], x, y, radius) {
                                        lemma_damage_keeps_sound(objects[i], after[i], damage, map);
                                    }
                                }
                            }
                        },
                        None => {},
                    }
                },
                Item::Sword => {},
                Item::Shield => {},
            }
        },
    }
}

/// What the intent asks for can be computed in machine integers. Nothing
/// is asked of a dead player. A step needs what `can_move_or_attack` says,
/// the use of an item what `can_use` says of that item, and taking the
/// stairs, where the player stands on them, what `can_descend` says.
pub open spec fn can_apply(
    intent: PlayerIntent,
    game: &Game,
    objects: Seq<Object>,
    fov: &FovMap,
    config: &Config,
) -> bool {
    objects[PLAYER as int].alive ==> match intent {
        PlayerIntent::Move(dx, dy) => can_move_or_attack(dx as int, dy as int, game, objects),
        PlayerIntent::UseItem(slot, target) => game.inventory@[slot as int].item matches Some(item)
            ==> can_use(item, target, objects, game, fov, config),
        PlayerIntent::Descend => on_stairs(objects) ==> can_descend(game, objects, config),
        _ => true,
    }
}

/// A game that is in order, with numbers and amounts within the limits,
/// can carry out every valid intent in machine integers.
pub proof fn lemma_limits_suffice(
    intent: PlayerIntent,
    game: &Game,
    objects: Seq<Object>,
    fov: &FovMap,
    config: &Config,
)
    requires
        config.can_generate(),
        config.amounts_in_limits(),
        arranged(game, objects),
        within_limits(game, objects),
        intent_valid(intent, game, objects),
    ensures
        can_apply(intent, game, objects, fov, config),
{
    let player = objects[PLAYER as int];
    assert(sound(player, &game.map));
    assert(player.in_limits());
    match intent {
        PlayerIntent::Move(dx, dy) => {
            match fighter_at(objects, player.x + dx, player.y + dy) {
                Some(target) => {
                    assert(first_fights_at(objects, player.x + dx, player.y + dy, target));
                    assert(objects[target].in_limits());
                },
                None => {},
            }
        },
        PlayerIntent::UseItem(slot, target) => {
            match game.inventory@[slot as int].item {
                Some(item) => {
                    lemma_can_use(item, target, objects, game, fov, config);
                },
                None => {},
            }
        },
        PlayerIntent::Descend => {
            lemma_effective_bounded(player, game.inventory@, Stat::MaxHp);
        },
        _ => {},
    }
}

/// Carries out what the player wants to do with the turn and says how it
/// counts.
pub fn apply_player_intent(
    intent: PlayerIntent,
    game: &mut Game,
    objects: &mut Vec<Object>,
    fov: &FovMap,
    config: &Config,
) -> (action: PlayerAction)
    requires
        arranged(old(game), old(objects)@),
        intent_valid(intent, old(game), old(objects)@),
        can_apply(intent, old(game), old(objects)@, fov, config),
    ensures
        action == intent_outcome(intent, old(objects)@[PLAYER as int].alive),
        arranged(final(game), final(objects)@),
        applied(intent, config, fov, old(objects)@, old(game), final(objects)@, final(game)),
{
    let player_alive = objects[PLAYER].alive;
    match intent {
        PlayerIntent::Exit => {
            return PlayerAction::Exit;
        },
        _ => {},
    }
    if !player_alive {
        return PlayerAction::DidntTakeTurn;
    }
    match intent {
        PlayerIntent::Move(dx, dy) => {
            player_move_or_attack(dx, dy, game, objects.as_mut_slice());
            proof {
                lemma_step_in_order(
                    &old(game).map,
                    old(game).inventory@,
                    old(objects)@,
                    old(game).log@,
                    objects@,
                    game.log@,
                    dx as int,
                    dy as int,
                );
            }
            PlayerAction::TookTurn
        },
        PlayerIntent::Wait => PlayerAction::TookTurn,
        PlayerIntent::PickUp => {
            let item_id = find_item_here(objects.as_slice());
            match item_id {
                Some(item_id) => {
                    assert(item_id != PLAYER);
                    assert(sound(objects@[item_id as int], &game.map));
                    assert(sound(objects@.last(), &game.map));
                    pick_item_up(item_id, objects, game);
                    proof {
                        assert forall|i: int| 0 <= i < objects@.len() implies sound(
                            #[trigger] objects@[i],
                            &game.map,
                        ) by {
                            if i != item_id {
                                assert(objects@[i] == old(objects)@[i]);
                                assert(sound(old(objects)@[i], &game.map));
                            }
                        }
                        assert forall|i: int| 0 <= i < game.inventory@.len() implies able(
                            #[trigger] game.inventory@[i],
                        ) by {
                            if i < old(game).inventory@.len() {
                                assert(game.inventory@[i] == old(game).inventory@[i]);
                            }
                        }
                    }
                },
                None => {},
            }
            PlayerAction::DidntTakeTurn
        },
        PlayerIntent::UseItem(slot, target) => {
            let result = use_item(slot, objects.as_mut_slice(), game, fov, config, target);
            proof {
                lemma_use_in_order(
                    target,
                    slot as int,
                    fov,
                    config,
                    &old(game).map,
                    old(objects)@,
                    old(game).inventory@,
                    old(game).log@,
                    objects@,
                    game.inventory@,
                    game.log@,
                    result,
                );
            }
            PlayerAction::DidntTakeTurn
        },
        PlayerIntent::DropItem(slot) => {
            assert(able(game.inventory@[slot as int]));
            assert(sound(objects@[PLAYER as int], &game.map));
            drop_item(slot, game, objects);
            proof {
                assert forall|i: int| 0 <= i < objects@.len() implies sound(
                    #[trigger] objects@[i],
                    &game.map,
                ) by {
                    if i < old(objects)@.len() {
                        assert(objects@[i] == old(objects)@[i]);
                        assert(sound(old(objects)@[i], &game.map));
                    }
                }
                assert forall|i: int| 0 <= i < game.inventory@.len() implies able(
                    #[trigger] game.inventory@[i],
                ) by {
                    if i < slot {
                        assert(game.inventory@[i] == old(game).inventory@[i]);
                    } else {
                        assert(game.inventory@[i] == old(game).inventory@[i + 1]);
                    }
                }
            }
            PlayerAction::DidntTakeTurn
        },
        PlayerIntent::Descend => {
            if player_on_stairs(objects.as_slice()) {
                next_level(objects, game, config);
            }
            PlayerAction::DidntTakeTurn
        },
        _ => PlayerAction::DidntTakeTurn,
    }
}

} // verus!
