use vstd::prelude::*;
use vstd::string::*;
use crate::colors::{green, red, yellow};
use crate::config::Config;
use crate::entity::{
    dist_sq, distance_squared, Fighter, Object, Slot, Transition, UseResult, PLAYER,
};
use crate::fov::FovMap;
use crate::messages::{
    dropped_message, dropped_text, inventory_full_message, inventory_full_text, level_up_message,
    level_up_text, picked_up_message, picked_up_text,
};
use crate::session::{Game, Line, INVENTORY_CAPACITY};
use crate::tile::LevelMap;

verus! {

/// Something stops movement onto `(x, y)`: the terrain, or an object that
/// blocks and stands there.
pub open spec fn blocked_at(map: &LevelMap, objects: Seq<Object>, x: int, y: int) -> bool {
    map.tile(x, y).blocked || exists|i: int|
        0 <= i < objects.len() && (#[trigger] objects[i]).blocks && objects[i].at(x, y)
}

/// Whether movement onto `(x, y)` is stopped by the terrain or by a
/// blocking object.
pub fn is_blocked(x: i32, y: i32, map: &LevelMap, objects: &[Object]) -> (b: bool)
    requires
        map.wf(),
        map.in_bounds(x as int, y as int),
    ensures
        b == blocked_at(map, objects@, x as int, y as int),
{
    if map.get(x, y).blocked {
        return true;
    }
    let mut i: usize = 0;
    while i < objects.len()
        invariant
            i <= objects@.len(),
            forall|j: int| 0 <= j < i ==> !((#[trigger] objects@[j]).blocks && objects@[j].at(x as int, y as int)),
        decreases objects@.len() - i,
    {
        if objects[i].blocks && objects[i].x == x && objects[i].y == y {
            return true;
        }
        i = i + 1;
    }
    false
}

/// Value of a depth table at a dungeon level: the value of the last entry
/// whose threshold the level has reached, and zero where there is none.
pub open spec fn table_value(table: Seq<Transition>, level: u32) -> u32
    decreases table.len(),
{
    if table.len() == 0 {
        0
    } else if level >= table.last().level {
        table.last().value
    } else {
        table_value(table.drop_last(), level)
    }
}

/// Looks a dungeon level up in a depth table.
pub fn from_dungeon_level(table: &[Transition], level: u32) -> (value: u32)
    ensures
        value == table_value(table@, level),
{
    let mut i: usize = table.len();
    assert(table@.subrange(0, i as int) =~= table@);
    while i > 0
        invariant
            i <= table@.len(),
            table_value(table@, level) == table_value(table@.subrange(0, i as int), level),
        decreases i,
    {
        if level >= table[i - 1].level {
            return table[i - 1].value;
        }
        assert(table@.subrange(0, i as int).drop_last() =~= table@.subrange(0, i - 1));
        i = i - 1;
    }
    0
}

/// Mutable access to two different elements of one slice at once.
pub fn mut_two<T>(first_index: usize, second_index: usize, items: &mut [T]) -> (pair: (
    &mut T,
    &mut T,
))
    requires
        first_index != second_index,
        first_index < old(items)@.len(),
        second_index < old(items)@.len(),
    ensures
        *pair.0 == old(items)@[first_index as int],
        *pair.1 == old(items)@[second_index as int],
        final(items)@ == old(items)@.update(first_index as int, *final(pair.0)).update(
            second_index as int,
            *final(pair.1),
        ),
{
    let split_at_index = if first_index > second_index {
        first_index
    } else {
        second_index
    };
    let (first_slice, second_slice) = items.split_at_mut(split_at_index);
    if first_index < second_index {
        (&mut first_slice[first_index], &mut second_slice[0])
    } else {
        (&mut second_slice[0], &mut first_slice[second_index])
    }
}

/// The objects once object `id` has tried to move by `(dx, dy)`: it stands
/// at the destination unless something blocks that, and nothing else has
/// changed.
pub open spec fn shifted(map: &LevelMap, objects: Seq<Object>, id: int, dx: int, dy: int) -> Seq<
    Object,
> {
    let x = objects[id].x + dx;
    let y = objects[id].y + dy;
    if blocked_at(map, objects, x, y) {
        objects
    } else {
        objects.update(id, Object { x: x as i32, y: y as i32, ..objects[id] })
    }
}

/// Moves object `id` by `(dx, dy)` unless the destination is blocked.
pub fn move_by(id: usize, dx: i32, dy: i32, game: &mut Game, objects: &mut [Object])
    requires
        id < old(objects)@.len(),
        old(game).map.wf(),
        old(game).map.in_bounds(old(objects)@[id as int].x + dx, old(objects)@[id as int].y + dy),
    ensures
        *final(game) == *old(game),
        final(objects)@ == shifted(&old(game).map, old(objects)@, id as int, dx as int, dy as int),
{
    let (x, y) = objects[id].pos();
    if !is_blocked(x + dx, y + dy, &game.map, objects) {
        objects[id].set_pos(x + dx, y + dy);
    }
}

/// One component of the unit vector along the displacement `(d, other)`,
/// rounded to the nearest integer: the sign of `d` where `d` makes up at
/// least half of the displacement's length, that is where
/// `3 * d * d >= other * other`, and zero elsewhere.
pub open spec fn unit_step(d: int, other: int) -> int {
    if d != 0 && 3 * d * d >= other * other {
        if d > 0 {
            1
        } else {
            -1
        }
    } else {
        0
    }
}

fn rounded_unit(d: i64, other: i64) -> (s: i32)
    requires
        -0x1_0000_0000 <= d <= 0x1_0000_0000,
        -0x1_0000_0000 <= other <= 0x1_0000_0000,
    ensures
        s == unit_step(d as int, other as int),
{
    let wide_d: i128 = d as i128;
    let wide_other: i128 = other as i128;
    assert(0 <= wide_d * wide_d <= 0x1_0000_0000_0000_0000) by (nonlinear_arith)
        requires
            -0x1_0000_0000 <= wide_d <= 0x1_0000_0000,
    ;
    assert(0 <= wide_other * wide_other <= 0x1_0000_0000_0000_0000) by (nonlinear_arith)
        requires
            -0x1_0000_0000 <= wide_other <= 0x1_0000_0000,
    ;
    let d_squared: i128 = wide_d * wide_d;
    let other_squared: i128 = wide_other * wide_other;
    assert(3 * d * d == 3 * d_squared) by (nonlinear_arith)
        requires
            d_squared == d * d,
    ;
    if d != 0 && 3 * d_squared >= other_squared {
        if d > 0 {
            1
        } else {
            -1
        }
    } else {
        0
    }
}

/// The step that takes something at `(x, y)` towards `(target_x, target_y)`:
/// the unit vector of the displacement with each component rounded to the
/// nearest integer.
pub open spec fn step_towards(x: int, y: int, target_x: int, target_y: int) -> (int, int) {
    (unit_step(target_x - x, target_y - y), unit_step(target_y - y, target_x - x))
}

/// The objects once object `id` has tried to step towards
/// `(target_x, target_y)`.
pub open spec fn approached(
    map: &LevelMap,
    objects: Seq<Object>,
    id: int,
    target_x: int,
    target_y: int,
) -> Seq<Object> {
    let step = step_towards(objects[id].x as int, objects[id].y as int, target_x, target_y);
    shifted(map, objects, id, step.0, step.1)
}

/// Moves object `id` one step towards `(target_x, target_y)`: by the unit
/// vector of the displacement with each component rounded to the nearest
/// integer, unless that destination is blocked.
pub fn move_towards(
    id: usize,
    target_x: i32,
    target_y: i32,
    game: &mut Game,
    objects: &mut [Object],
)
    requires
        id < old(objects)@.len(),
        old(game).map.wf(),
        ({
            let me = old(objects)@[id as int];
            let step = step_towards(me.x as int, me.y as int, target_x as int, target_y as int);
            old(game).map.in_bounds(me.x + step.0, me.y + step.1)
        }),
    ensures
        *final(game) == *old(game),
        final(objects)@ == approached(
            &old(game).map,
            old(objects)@,
            id as int,
            target_x as int,
            target_y as int,
        ),
{
    let dx: i64 = target_x as i64 - objects[id].x as i64;
    let dy: i64 = target_y as i64 - objects[id].y as i64;
    let step_x: i32 = rounded_unit(dx, dy);
    let step_y: i32 = rounded_unit(dy, dx);
    move_by(id, step_x, step_y, game, objects);
}

/// The item at `index` is worn in `slot`.
pub open spec fn worn_in(inventory: Seq<Object>, slot: Slot, index: int) -> bool {
    &&& 0 <= index < inventory.len()
    &&& inventory[index].equipment matches Some(e)
    &&& e.equipped
    &&& e.slot == slot
}

/// The item at `index` is the first that is worn in `slot`.
pub open spec fn first_worn_in(inventory: Seq<Object>, slot: Slot, index: int) -> bool {
    worn_in(inventory, slot, index) && forall|j: int| 0 <= j < index ==> !worn_in(inventory, slot, j)
}

/// Index of the first inventory item worn in `slot`, if there is one.
pub open spec fn equipped_in_slot(inventory: Seq<Object>, slot: Slot) -> Option<int> {
    if exists|i: int| first_worn_in(inventory, slot, i) {
        Some(choose|i: int| first_worn_in(inventory, slot, i))
    } else {
        None
    }
}

/// Finds what is worn in `slot`: the first such item of the inventory.
pub fn get_equipped_in_slot(slot: Slot, inventory: &[Object]) -> (found: Option<usize>)
    ensures
        match found {
            Some(i) => worn_in(inventory@, slot, i as int) && equipped_in_slot(inventory@, slot)
                == Some(i as int),
            None => equipped_in_slot(inventory@, slot).is_none() && forall|j: int|
                !worn_in(inventory@, slot, j),
        },
{
    let mut i: usize = 0;
    while i < inventory.len()
        invariant
            i <= inventory@.len(),
            forall|j: int| 0 <= j < i ==> !worn_in(inventory@, slot, j),
        decreases inventory@.len() - i,
    {
        let hit = match inventory[i].equipment {
            Some(e) => e.equipped && e.slot == slot,
            None => false,
        };
        if hit {
            assert(first_worn_in(inventory@, slot, i as int));
            return Some(i);
        }
        i = i + 1;
    }
    None
}

/// What toggling the item at `id` does to the inventory and the log.
/// Equipment that is worn is taken off and equipment that is not is put on;
/// the item is kept either way. Something that is no equipment cannot be
/// toggled: the use is cancelled and nothing changes.
pub open spec fn toggled(
    inventory: Seq<Object>,
    log: Seq<Line>,
    inventory_after: Seq<Object>,
    log_after: Seq<Line>,
    id: int,
    result: UseResult,
) -> bool {
    let item = inventory[id];
    match item.equipment {
        None => result == UseResult::Cancelled && inventory_after == inventory && log_after == log,
        Some(e) => {
            &&& result == UseResult::UsedAndKept
            &&& inventory_after == inventory.update(
                id,
                if e.equipped {
                    item.taken_off()
                } else {
                    item.put_on()
                },
            )
            &&& log_after == log + if e.equipped {
                item.dequip_lines()
            } else {
                item.equip_lines()
            }
        },
    }
}

/// Wears the item at `inventory_id` if it is not worn and takes it off if
/// it is.
pub fn toggle_equipment(inventory_id: usize, _objects: &mut [Object], game: &mut Game) -> (result:
    UseResult)
    requires
        inventory_id < old(game).inventory@.len(),
    ensures
        final(_objects)@ == old(_objects)@,
        final(game).map == old(game).map,
        final(game).dungeon_level == old(game).dungeon_level,
        toggled(
            old(game).inventory@,
            old(game).log@,
            final(game).inventory@,
            final(game).log@,
            inventory_id as int,
            result,
        ),
{
    let equipment = match game.inventory[inventory_id].equipment {
        Some(equipment) => equipment,
        None => {
            return UseResult::Cancelled;
        },
    };
    if equipment.equipped {
        game.inventory[inventory_id].dequip(&mut game.log);
    } else {
        game.inventory[inventory_id].equip(&mut game.log);
    }
    UseResult::UsedAndKept
}

/// Square of the distance below which a strike of range `max_range`
/// reaches: one more than the range, squared, and nothing for a range
/// below zero.
pub open spec fn reach_sq(max_range: int) -> int {
    if max_range + 1 > 0 {
        (max_range + 1) * (max_range + 1)
    } else {
        0
    }
}

/// Squared distance of object `id` from the player.
pub open spec fn player_dist_sq(objects: Seq<Object>, id: int) -> int {
    dist_sq(
        objects[PLAYER as int].x as int,
        objects[PLAYER as int].y as int,
        objects[id].x as int,
        objects[id].y as int,
    )
}

/// Object `id` is an enemy that a strike of range `max_range` can reach:
/// not the player, able to fight and to act, in the player's field of view,
/// and closer than one step beyond the range.
pub open spec fn strikable(objects: Seq<Object>, fov: &FovMap, max_range: int, id: int) -> bool {
    &&& 0 <= id < objects.len()
    &&& id != PLAYER
    &&& objects[id].fighter is Some
    &&& objects[id].ai is Some
    &&& fov.visible(objects[id].x as int, objects[id].y as int)
    &&& player_dist_sq(objects, id) < reach_sq(max_range)
}

/// Object `id` is the enemy a strike of range `max_range` hits: it can be
/// reached, none that can be reached is nearer to the player, and of those
/// equally near it is the first.
pub open spec fn is_closest(objects: Seq<Object>, fov: &FovMap, max_range: int, id: int) -> bool {
    &&& strikable(objects, fov, max_range, id)
    &&& forall|j: int|
        strikable(objects, fov, max_range, j) ==> {
            ||| player_dist_sq(objects, id) < player_dist_sq(objects, j)
            ||| player_dist_sq(objects, id) == player_dist_sq(objects, j) && id <= j
        }
}

/// The enemy a strike of range `max_range` hits, if there is any.
pub open spec fn closest_strikable(objects: Seq<Object>, fov: &FovMap, max_range: int) -> Option<
    int,
> {
    if exists|id: int| is_closest(objects, fov, max_range, id) {
        Some(choose|id: int| is_closest(objects, fov, max_range, id))
    } else {
        None
    }
}

/// Finds the enemy nearest to the player among those a strike of range
/// `max_range` can reach; of several equally near, the first.
pub fn closest_monster(max_range: i32, objects: &mut [Object], fov: &FovMap) -> (found: Option<
    usize,
>)
    ensures
        final(objects)@ == old(objects)@,
        match found {
            Some(id) => is_closest(old(objects)@, fov, max_range as int, id as int)
                && closest_strikable(old(objects)@, fov, max_range as int) == Some(id as int),
            None => closest_strikable(old(objects)@, fov, max_range as int).is_none() && forall|
                j: int,
            |
                !strikable(old(objects)@, fov, max_range as int, j),
        },
{
    let mut closest_enemy: Option<usize> = None;
    let limit: i128 = max_range as i128 + 1;
    assert(0 <= limit * limit <= 0x1_0000_0000_0000_0000) by (nonlinear_arith)
        requires
            -0x1_0000_0000 <= limit <= 0x1_0000_0000,
    ;
    let mut closest_dist: i128 = if limit > 0 {
        limit * limit
    } else {
        0
    };
    let mut id: usize = 0;
    while id < objects.len()
        invariant
            id <= objects@.len(),
            objects@ == old(objects)@,
            closest_dist <= reach_sq(max_range as int),
            match closest_enemy {
                Some(best) => {
                    &&& best < id
                    &&& strikable(objects@, fov, max_range as int, best as int)
                    &&& closest_dist == player_dist_sq(objects@, best as int)
                    &&& forall|j: int|
                        0 <= j < id && strikable(objects@, fov, max_range as int, j) ==> {
                            ||| closest_dist < player_dist_sq(objects@, j)
                            ||| closest_dist == player_dist_sq(objects@, j) && best <= j
                        }
                },
                None => {
                    &&& closest_dist == reach_sq(max_range as int)
                    &&& forall|j: int| 0 <= j < id ==> !strikable(objects@, fov, max_range as int, j)
                },
            },
        decreases objects@.len() - id,
    {
        if id != PLAYER && objects[id].fighter.is_some() && objects[id].ai.is_some()
            && fov.is_in_fov(objects[id].x, objects[id].y) {
            let dist: i128 = distance_squared(
                objects[PLAYER].x,
                objects[PLAYER].y,
                objects[id].x,
                objects[id].y,
            );
            if dist < closest_dist {
                closest_enemy = Some(id);
                closest_dist = dist;
            }
        }
        id = id + 1;
    }
    proof {
        match closest_enemy {
            Some(best) => {
                assert(is_closest(objects@, fov, max_range as int, best as int));
            },
            None => {},
        }
    }
    closest_enemy
}

/// Object `index` can fight and stands at `(x, y)`.
pub open spec fn fights_at(objects: Seq<Object>, x: int, y: int, index: int) -> bool {
    &&& 0 <= index < objects.len()
    &&& objects[index].fighter is Some
    &&& objects[index].at(x, y)
}

/// Object `index` is the first that can fight and stands at `(x, y)`.
pub open spec fn first_fights_at(objects: Seq<Object>, x: int, y: int, index: int) -> bool {
    fights_at(objects, x, y, index) && forall|j: int| 0 <= j < index ==> !fights_at(objects, x, y, j)
}

/// Index of the first object that can fight and stands at `(x, y)`.
pub open spec fn fighter_at(objects: Seq<Object>, x: int, y: int) -> Option<int> {
    if exists|i: int| first_fights_at(objects, x, y, i) {
        Some(choose|i: int| first_fights_at(objects, x, y, i))
    } else {
        None
    }
}

/// Finds the first object that can fight and stands at `(x, y)`.
pub fn find_fighter_at(objects: &[Object], x: i32, y: i32) -> (found: Option<usize>)
    ensures
        match found {
            Some(i) => fights_at(objects@, x as int, y as int, i as int) && fighter_at(
                objects@,
                x as int,
                y as int,
            ) == Some(i as int),
            None => fighter_at(objects@, x as int, y as int).is_none() && forall|j: int|
                !fights_at(objects@, x as int, y as int, j),
        },
{
    let mut i: usize = 0;
    while i < objects.len()
        invariant
            i <= objects@.len(),
            forall|j: int| 0 <= j < i ==> !fights_at(objects@, x as int, y as int, j),
        decreases objects@.len() - i,
    {
        if objects[i].fighter.is_some() && objects[i].x == x && objects[i].y == y {
            assert(first_fights_at(objects@, x as int, y as int, i as int));
            return Some(i);
        }
        i = i + 1;
    }
    None
}

/// The player's step by `(dx, dy)` can be carried out: there are machine
/// integers for the destination, and either someone other than the player
/// stands there to be attacked, in numbers within the limits, or the
/// destination is on the grid.
pub open spec fn can_move_or_attack(dx: int, dy: int, game: &Game, objects: Seq<Object>) -> bool {
    let x = objects[PLAYER as int].x + dx;
    let y = objects[PLAYER as int].y + dy;
    &&& objects.len() >= 1
    &&& game.map.wf()
    &&& i32::MIN <= x <= i32::MAX
    &&& i32::MIN <= y <= i32::MAX
    &&& match fighter_at(objects, x, y) {
        Some(target) => {
            &&& target != PLAYER
            &&& game.inventory_in_limits()
            &&& objects[PLAYER as int].can_attack(objects[target], game.inventory@)
        },
        None => game.map.in_bounds(x, y),
    }
}

/// What the player's step by `(dx, dy)` does: an attack on whoever can
/// fight and stands at the destination, or else a move there, if nothing
/// blocks it.
pub open spec fn stepped(
    map: &LevelMap,
    inventory: Seq<Object>,
    objects: Seq<Object>,
    log: Seq<Line>,
    objects_after: Seq<Object>,
    log_after: Seq<Line>,
    dx: int,
    dy: int,
) -> bool {
    let player = objects[PLAYER as int];
    let x = player.x + dx;
    let y = player.y + dy;
    &&& objects_after.len() == objects.len()
    &&& match fighter_at(objects, x, y) {
        Some(target) => {
            &&& player.attacked(
                objects[target],
                objects_after[PLAYER as int],
                objects_after[target],
                inventory,
                log,
                log_after,
            )
            &&& forall|i: int|
                0 <= i < objects.len() && i != PLAYER && i != target ==> objects_after[i]
                    == objects[i]
        },
        None => log_after == log && objects_after == shifted(map, objects, PLAYER as int, dx, dy),
    }
}

/// The player steps by `(dx, dy)`.
pub fn player_move_or_attack(dx: i32, dy: i32, game: &mut Game, objects: &mut [Object])
    requires
        can_move_or_attack(dx as int, dy as int, old(game), old(objects)@),
    ensures
        final(game).map == old(game).map,
        final(game).inventory == old(game).inventory,
        final(game).dungeon_level == old(game).dungeon_level,
        stepped(
            &old(game).map,
            old(game).inventory@,
            old(objects)@,
            old(game).log@,
            final(objects)@,
            final(game).log@,
            dx as int,
            dy as int,
        ),
{
    let x: i32 = objects[PLAYER].x + dx;
    let y: i32 = objects[PLAYER].y + dy;
    let target_id = find_fighter_at(objects, x, y);
    match target_id {
        Some(target_id) => {
            attack_from_to(PLAYER, target_id, game, objects);
        },
        None => {
            move_by(PLAYER, dx, dy, game, objects);
        },
    }
}

/// Lets object `attacker` attack object `target`.
pub fn attack_from_to(attacker: usize, target: usize, game: &mut Game, objects: &mut [Object])
    requires
        attacker != target,
        attacker < old(objects)@.len(),
        target < old(objects)@.len(),
        old(game).inventory_in_limits(),
        old(objects)@[attacker as int].can_attack(
            old(objects)@[target as int],
            old(game).inventory@,
        ),
    ensures
        final(game).map == old(game).map,
        final(game).inventory == old(game).inventory,
        final(game).dungeon_level == old(game).dungeon_level,
        final(objects)@.len() == old(objects)@.len(),
        old(objects)@[attacker as int].attacked(
            old(objects)@[target as int],
            final(objects)@[attacker as int],
            final(objects)@[target as int],
            old(game).inventory@,
            old(game).log@,
            final(game).log@,
        ),
        forall|i: int|
            0 <= i < old(objects)@.len() && i != attacker && i != target ==> final(objects)@[i]
                == old(objects)@[i],
{
    let (first, second) = mut_two(attacker, target, objects);
    first.attack(second, game);
}

/// The item `item` would be put on as soon as it joins `inventory`: it is
/// equipment and nothing in the inventory, the item included, is worn in
/// its slot.
pub open spec fn worn_on_pickup(inventory: Seq<Object>, item: Object) -> bool {
    item.equipment matches Some(e) && equipped_in_slot(inventory.push(item), e.slot).is_none()
}

/// What picking up object `id` does. With the inventory full the item
/// stays where it is and the refusal is logged. Otherwise the item leaves
/// the level, where the last object takes its place, and joins the
/// inventory, put on if it is equipment for a slot in which nothing is
/// worn; both are logged.
pub open spec fn picked_up(
    objects: Seq<Object>,
    inventory: Seq<Object>,
    log: Seq<Line>,
    objects_after: Seq<Object>,
    inventory_after: Seq<Object>,
    log_after: Seq<Line>,
    id: int,
) -> bool {
    let item = objects[id];
    if inventory.len() >= INVENTORY_CAPACITY {
        &&& objects_after == objects
        &&& inventory_after == inventory
        &&& log_after == log.push(Line { text: inventory_full_text(item.name@), color: red() })
    } else {
        &&& objects_after == objects.update(id, objects.last()).drop_last()
        &&& inventory_after == inventory.push(
            if worn_on_pickup(inventory, item) {
                item.put_on()
            } else {
                item
            },
        )
        &&& log_after == log.push(Line { text: picked_up_text(item.name@), color: green() })
            + if worn_on_pickup(inventory, item) {
            item.equip_lines()
        } else {
            Seq::<Line>::empty()
        }
    }
}

/// Moves object `object_id` from the level into the inventory.
pub fn pick_item_up(object_id: usize, objects: &mut Vec<Object>, game: &mut Game)
    requires
        object_id < old(objects)@.len(),
    ensures
        final(game).map == old(game).map,
        final(game).dungeon_level == old(game).dungeon_level,
        picked_up(
            old(objects)@,
            old(game).inventory@,
            old(game).log@,
            final(objects)@,
            final(game).inventory@,
            final(game).log@,
            object_id as int,
        ),
{
    if game.inventory.len() >= INVENTORY_CAPACITY {
        game.log.add(inventory_full_message(objects[object_id].name.as_str()), red());
    } else {
        let item = objects.swap_remove(object_id);
        game.log.add(picked_up_message(item.name.as_str()), green());
        let index = game.inventory.len();
        let slot = match item.equipment {
            Some(e) => Some(e.slot),
            None => None,
        };
        game.inventory.push(item);
        let mut wear = false;
        match slot {
            Some(slot) => {
                if get_equipped_in_slot(slot, game.inventory.as_slice()).is_none() {
                    wear = true;
                }
            },
            None => {},
        }
        if wear {
            game.inventory[index].equip(&mut game.log);
            assert(game.inventory@ =~= old(game).inventory@.push(
                old(objects)@[object_id as int].put_on(),
            ));
        } else {
            assert(game.log@ =~= old(game).log@.push(
                Line { text: picked_up_text(old(objects)@[object_id as int].name@), color: green() },
            ) + Seq::<Line>::empty());
        }
    }
}

/// What dropping the item at `id` of the inventory does: the item leaves
/// the inventory and lies at the player's feet, as the last object of the
/// level; equipment is taken off first; all of it is logged.
pub open spec fn dropped(
    objects: Seq<Object>,
    inventory: Seq<Object>,
    log: Seq<Line>,
    objects_after: Seq<Object>,
    inventory_after: Seq<Object>,
    log_after: Seq<Line>,
    id: int,
) -> bool {
    let item = inventory[id];
    let player = objects[PLAYER as int];
    &&& inventory_after == inventory.remove(id)
    &&& objects_after == objects.push(Object { x: player.x, y: player.y, ..item.taken_off() })
    &&& log_after == (log + if item.equipment is Some {
        item.dequip_lines()
    } else {
        Seq::<Line>::empty()
    }).push(Line { text: dropped_text(item.name@), color: yellow() })
}

/// Drops the item at `inventory_id` of the inventory.
pub fn drop_item(inventory_id: usize, game: &mut Game, objects: &mut Vec<Object>)
    requires
        inventory_id < old(game).inventory@.len(),
        old(objects)@.len() >= 1,
    ensures
        final(game).map == old(game).map,
        final(game).dungeon_level == old(game).dungeon_level,
        dropped(
            old(objects)@,
            old(game).inventory@,
            old(game).log@,
            final(objects)@,
            final(game).inventory@,
            final(game).log@,
            inventory_id as int,
        ),
{
    let mut item = game.inventory.remove(inventory_id);
    if item.equipment.is_some() {
        item.dequip(&mut game.log);
    } else {
        assert(game.log@ =~= old(game).log@ + Seq::<Line>::empty());
    }
    item.set_pos(objects[PLAYER].x, objects[PLAYER].y);
    game.log.add(dropped_message(item.name.as_str()), yellow());
    objects.push(item);
}

/// What the player may raise on reaching a new level.
#[derive(Clone, Copy, Debug, PartialEq, Eq, Structural)]
pub enum LevelUpChoice {
    /// 20 more hit points, at once and at most.
    Constitution,
    /// One more point of attack.
    Strength,
    /// One more point of defense.
    Agility,
}

/// Experience that takes a character of level `level` to the next.
pub open spec fn level_up_xp(level: int, config: &Config) -> int {
    config.level_up_base + level * config.level_up_factor
}

/// The player has the experience for the next level.
pub open spec fn level_up_due(objects: Seq<Object>, config: &Config) -> bool {
    objects[PLAYER as int].fighter->0.xp >= level_up_xp(objects[PLAYER as int].level as int, config)
}

/// The fighter after a level-up with the given choice: the experience is
/// lowered by the threshold that was reached, and the chosen statistic is
/// raised.
pub open spec fn levelled(f: Fighter, threshold: int, choice: LevelUpChoice) -> Fighter {
    let paid = Fighter { xp: (f.xp - threshold) as i32, ..f };
    match choice {
        LevelUpChoice::Constitution => Fighter {
            base_max_hp: (f.base_max_hp + 20) as i32,
            hp: (f.hp + 20) as i32,
            ..paid
        },
        LevelUpChoice::Strength => Fighter { base_power: (f.base_power + 1) as i32, ..paid },
        LevelUpChoice::Agility => Fighter { base_defense: (f.base_defense + 1) as i32, ..paid },
    }
}

fn level_up_threshold(player: &Object, config: &Config) -> (threshold: i64)
    requires
        player.in_limits(),
    ensures
        threshold == level_up_xp(player.level as int, config),
        config.can_level() ==> threshold >= 0,
{
    let level: i64 = player.level as i64;
    let factor: i64 = config.level_up_factor as i64;
    assert(-1_000_000 * 0x8000_0000 <= level * factor <= 1_000_000 * 0x8000_0000 && (factor >= 0
        ==> level * factor >= 0)) by (nonlinear_arith)
        requires
            0 <= level <= 1_000_000,
            -0x8000_0000 <= factor <= 0x8000_0000,
    ;
    config.level_up_base as i64 + level * factor
}

/// Whether the player has the experience for the next level.
pub fn check_level_up(objects: &[Object], config: &Config) -> (due: bool)
    requires
        objects@.len() >= 1,
        objects@[PLAYER as int].fighter is Some,
        objects@[PLAYER as int].in_limits(),
    ensures
        due == level_up_due(objects@, config),
{
    let threshold: i64 = level_up_threshold(&objects[PLAYER], config);
    match objects[PLAYER].fighter {
        Some(f) => f.xp as i64 >= threshold,
        None => false,
    }
}

/// Takes the player to the next level if the experience for it is there:
/// the level goes up by one, which is logged, the experience is lowered by
/// the threshold that was reached, so that what was gathered beyond it
/// is kept, and the chosen statistic is raised. Without the experience
/// nothing happens.
pub fn level_up(objects: &mut [Object], game: &mut Game, config: &Config, choice: LevelUpChoice)
    requires
        config.can_level(),
        old(objects)@.len() >= 1,
        old(objects)@[PLAYER as int].fighter is Some,
        old(objects)@[PLAYER as int].in_limits(),
    ensures
        final(game).map == old(game).map,
        final(game).inventory == old(game).inventory,
        final(game).dungeon_level == old(game).dungeon_level,
        ({
            let player = old(objects)@[PLAYER as int];
            if level_up_due(old(objects)@, config) {
                &&& final(objects)@ == old(objects)@.update(
                    PLAYER as int,
                    Object {
                        level: (player.level + 1) as i32,
                        fighter: Some(
                            levelled(
                                player.fighter->0,
                                level_up_xp(player.level as int, config),
                                choice,
                            ),
                        ),
                        ..player
                    },
                )
                &&& final(game).log@ == old(game).log@.push(
                    Line { text: level_up_text(player.level + 1), color: yellow() },
                )
            } else {
                &&& final(objects)@ == old(objects)@
                &&& final(game).log == old(game).log
            }
        }),
{
    let threshold: i64 = level_up_threshold(&objects[PLAYER], config);
    match objects[PLAYER].fighter {
        Some(f) => {
            if f.xp as i64 >= threshold {
                let level: i32 = objects[PLAYER].level + 1;
                objects[PLAYER].level = level;
                game.log.add(level_up_message(level as i64), yellow());
                let xp: i32 = (f.xp as i64 - threshold) as i32;
                let raised = match choice {
                    LevelUpChoice::Constitution => Fighter {
                        base_max_hp: f.base_max_hp + 20,
                        hp: f.hp + 20,
                        xp: xp,
                        ..f
                    },
                    LevelUpChoice::Strength => Fighter { base_power: f.base_power + 1, xp: xp, ..f },
                    LevelUpChoice::Agility => Fighter {
                        base_defense: f.base_defense + 1,
                        xp: xp,
                        ..f
                    },
                };
                objects[PLAYER].fighter = Some(raised);
                assert(objects@ =~= old(objects)@.update(
                    PLAYER as int,
                    Object {
                        level: (old(objects)@[PLAYER as int].level + 1) as i32,
                        fighter: Some(
                            levelled(
                                old(objects)@[PLAYER as int].fighter->0,
                                level_up_xp(old(objects)@[PLAYER as int].level as int, config),
                                choice,
                            ),
                        ),
                        ..old(objects)@[PLAYER as int]
                    },
                ));
            }
        },
        None => {},
    }
}

/// A level-up takes exactly the threshold away from the experience: what
/// was gathered beyond it is kept, whatever is chosen.
pub proof fn lemma_level_up_keeps_surplus(f: Fighter, threshold: int, choice: LevelUpChoice)
    requires
        0 <= threshold <= f.xp,
    ensures
        levelled(f, threshold, choice).xp == f.xp - threshold,
{
}

} // verus!
