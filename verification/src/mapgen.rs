use vstd::prelude::*;
use crate::config::Config;
use crate::entity::{Item, Object, PLAYER};
use crate::helper::{blocked_at, is_blocked, table_value};
use crate::paths::{
    connected, lemma_carving, lemma_column_connected, lemma_connected_here,
    lemma_connected_onwards, lemma_connected_still, lemma_row_connected,
};
use crate::rng::{random_bool, random_range, total_weight, weighted_index};
use crate::spawn::{
    is_item_object, is_level_item, is_level_monster, is_monster, is_spawn, is_stairs, is_torch,
    item_at_index, item_chance, item_chances, item_order, lemma_room_capacity, make_item,
    make_monster, make_stairs, make_torch, max_items, max_items_table, max_monsters,
    max_monsters_table, monster_at_index, monster_chance, monster_chances, monster_order,
    MonsterKind,
};
use crate::tile::{LevelMap, Rect, Tile};

verus! {

/// The smaller of two coordinates.
pub open spec fn lower(a: int, b: int) -> int {
    if a <= b {
        a
    } else {
        b
    }
}

/// The larger of two coordinates.
pub open spec fn upper(a: int, b: int) -> int {
    if a >= b {
        a
    } else {
        b
    }
}

/// Turns the inside of `room` into open floor and leaves its boundary as
/// it is.
pub fn create_room(room: Rect, map: &mut LevelMap)
    requires
        old(map).wf(),
        room.x1 < i32::MAX,
        room.y1 < i32::MAX,
        forall|x: int, y: int| #[trigger] room.contains_floor(x, y) ==> old(map).in_bounds(x, y),
    ensures
        final(map).wf(),
        final(map).width() == old(map).width(),
        final(map).height() == old(map).height(),
        forall|x: int, y: int|
            final(map).in_bounds(x, y) ==> #[trigger] final(map).tile(x, y) == if room.contains_floor(
                x,
                y,
            ) {
                Tile::empty()
            } else {
                old(map).tile(x, y)
            },
{
    let mut x: i32 = room.x1 + 1;
    while x < room.x2
        invariant
            room.x1 < x,
            room.y1 < i32::MAX,
            map.wf(),
            map.width() == old(map).width(),
            map.height() == old(map).height(),
            forall|i: int, j: int| #[trigger] room.contains_floor(i, j) ==> old(map).in_bounds(i, j),
            forall|i: int, j: int|
                map.in_bounds(i, j) ==> #[trigger] map.tile(i, j) == if room.contains_floor(i, j)
                    && i < x {
                    Tile::empty()
                } else {
                    old(map).tile(i, j)
                },
        decreases room.x2 - x,
    {
        let mut y: i32 = room.y1 + 1;
        while y < room.y2
            invariant
                room.x1 < x < room.x2,
                room.y1 < y,
                map.wf(),
                map.width() == old(map).width(),
                map.height() == old(map).height(),
                forall|i: int, j: int| #[trigger]
                    room.contains_floor(i, j) ==> old(map).in_bounds(i, j),
                forall|i: int, j: int|
                    map.in_bounds(i, j) ==> #[trigger] map.tile(i, j) == if room.contains_floor(
                        i,
                        j,
                    ) && (i < x || (i == x && j < y)) {
                        Tile::empty()
                    } else {
                        old(map).tile(i, j)
                    },
            decreases room.y2 - y,
        {
            assert(room.contains_floor(x as int, y as int));
            map.set(x, y, Tile::empty());
            y = y + 1;
        }
        x = x + 1;
    }
}

/// Opens the tiles of row `y` from column `x1` to column `x2`, whichever of
/// the two is smaller, both ends included.
pub fn create_h_tunnel(x1: i32, x2: i32, y: i32, map: &mut LevelMap)
    requires
        old(map).wf(),
        old(map).in_bounds(x1 as int, y as int),
        old(map).in_bounds(x2 as int, y as int),
    ensures
        final(map).wf(),
        final(map).width() == old(map).width(),
        final(map).height() == old(map).height(),
        forall|i: int, j: int|
            final(map).in_bounds(i, j) ==> #[trigger] final(map).tile(i, j) == if j == y && lower(
                x1 as int,
                x2 as int,
            ) <= i <= upper(x1 as int, x2 as int) {
                Tile::empty()
            } else {
                old(map).tile(i, j)
            },
{
    let first: i32 = if x1 <= x2 {
        x1
    } else {
        x2
    };
    let last: i32 = if x1 >= x2 {
        x1
    } else {
        x2
    };
    let mut x: i32 = first;
    while x < last + 1
        invariant
            first <= x <= last + 1,
            first == lower(x1 as int, x2 as int),
            last == upper(x1 as int, x2 as int),
            map.wf(),
            map.width() == old(map).width(),
            map.height() == old(map).height(),
            map.in_bounds(first as int, y as int),
            map.in_bounds(last as int, y as int),
            forall|i: int, j: int|
                map.in_bounds(i, j) ==> #[trigger] map.tile(i, j) == if j == y && first <= i < x {
                    Tile::empty()
                } else {
                    old(map).tile(i, j)
                },
        decreases last + 1 - x,
    {
        map.set(x, y, Tile::empty());
        x = x + 1;
    }
}

/// Opens the tiles of column `x` from row `y1` to row `y2`, whichever of
/// the two is smaller, both ends included.
pub fn create_v_tunnel(y1: i32, y2: i32, x: i32, map: &mut LevelMap)
    requires
        old(map).wf(),
        old(map).in_bounds(x as int, y1 as int),
        old(map).in_bounds(x as int, y2 as int),
    ensures
        final(map).wf(),
        final(map).width() == old(map).width(),
        final(map).height() == old(map).height(),
        forall|i: int, j: int|
            final(map).in_bounds(i, j) ==> #[trigger] final(map).tile(i, j) == if i == x && lower(
                y1 as int,
                y2 as int,
            ) <= j <= upper(y1 as int, y2 as int) {
                Tile::empty()
            } else {
                old(map).tile(i, j)
            },
{
    let first: i32 = if y1 <= y2 {
        y1
    } else {
        y2
    };
    let last: i32 = if y1 >= y2 {
        y1
    } else {
        y2
    };
    let mut y: i32 = first;
    while y < last + 1
        invariant
            first <= y <= last + 1,
            first == lower(y1 as int, y2 as int),
            last == upper(y1 as int, y2 as int),
            map.wf(),
            map.width() == old(map).width(),
            map.height() == old(map).height(),
            map.in_bounds(x as int, first as int),
            map.in_bounds(x as int, last as int),
            forall|i: int, j: int|
                map.in_bounds(i, j) ==> #[trigger] map.tile(i, j) == if i == x && first <= j < y {
                    Tile::empty()
                } else {
                    old(map).tile(i, j)
                },
        decreases last + 1 - y,
    {
        map.set(x, y, Tile::empty());
        y = y + 1;
    }
}

/// Object `i` of `objects` was put on the floor of `room` at a place where
/// neither the terrain nor any of the objects before it stopped movement.
pub open spec fn placed(objects: Seq<Object>, i: int, room: Rect, map: &LevelMap) -> bool {
    &&& room.contains_floor(objects[i].x as int, objects[i].y as int)
    &&& !blocked_at(map, objects.subrange(0, i), objects[i].x as int, objects[i].y as int)
}

/// `after` is `before` followed by what one room received: first
/// `monsters` monsters, then `items` items, then at most one torch, each of
/// a kind that occurs at this dungeon level, each placed on free floor of
/// the room, and no more of them than the level allows.
pub open spec fn populated(
    before: Seq<Object>,
    after: Seq<Object>,
    room: Rect,
    map: &LevelMap,
    level: u32,
    monsters: int,
    items: int,
) -> bool {
    let first_item = before.len() + monsters;
    let first_torch = first_item + items;
    &&& 0 <= monsters <= table_value(max_monsters_table(), level)
    &&& 0 <= items <= table_value(max_items_table(), level)
    &&& first_torch <= after.len() <= first_torch + 1
    &&& after.subrange(0, before.len() as int) == before
    &&& forall|i: int| before.len() <= i < after.len() ==> #[trigger] placed(after, i, room, map)
    &&& forall|i: int|
        before.len() <= i < first_item ==> is_level_monster(#[trigger] after[i], level)
    &&& forall|i: int|
        first_item <= i < first_torch ==> is_level_item(#[trigger] after[i], level)
    &&& forall|i: int| first_torch <= i < after.len() ==> is_torch(#[trigger] after[i], after[i].x, after[i].y)
}

/// Everything a populated room received is something the generator makes at
/// that dungeon level.
pub proof fn lemma_populated_with_spawns(
    before: Seq<Object>,
    after: Seq<Object>,
    room: Rect,
    map: &LevelMap,
    level: u32,
    monsters: int,
    items: int,
)
    requires
        populated(before, after, room, map, level, monsters, items),
    ensures
        forall|i: int| before.len() <= i < after.len() ==> is_spawn(#[trigger] after[i], level),
{
    assert forall|i: int| before.len() <= i < after.len() implies is_spawn(
        #[trigger] after[i],
        level,
    ) by {
        if i < before.len() + monsters {
            assert(is_level_monster(after[i], level));
        } else if i < before.len() + monsters + items {
            assert(is_level_item(after[i], level));
        } else {
            assert(is_torch(after[i], after[i].x, after[i].y));
        }
    }
}

/// `after` is `before` with one more object at its end.
pub open spec fn one_more(before: Seq<Object>, after: Seq<Object>) -> bool {
    after.len() == before.len() + 1 && after.subrange(0, before.len() as int) == before
}

/// What was placed stays placed when an object is added behind it, and the
/// object added is placed if it stands on free floor of the room.
proof fn lemma_one_more_placed(before: Seq<Object>, after: Seq<Object>, room: Rect, map: &LevelMap)
    requires
        one_more(before, after),
    ensures
        forall|i: int| 0 <= i < before.len() ==> #[trigger] after[i] == before[i],
        forall|i: int|
            0 <= i < before.len() && placed(before, i, room, map) ==> #[trigger] placed(
                after,
                i,
                room,
                map,
            ),
        room.contains_floor(after.last().x as int, after.last().y as int) && !blocked_at(
            map,
            before,
            after.last().x as int,
            after.last().y as int,
        ) ==> placed(after, before.len() as int, room, map),
{
    assert forall|i: int| 0 <= i < before.len() implies #[trigger] after[i] == before[i] by {
        assert(after.subrange(0, before.len() as int)[i] == after[i]);
    }
    assert forall|i: int|
        0 <= i < before.len() && placed(before, i, room, map) implies #[trigger] placed(
        after,
        i,
        room,
        map,
    ) by {
        assert(after.subrange(0, i) =~= before.subrange(0, i));
    }
    assert(after.last() == after[before.len() as int]);
}

/// Puts a fresh monster of the given kind at `(x, y)`, as the last object,
/// unless the terrain or a blocking object stops movement there; then
/// nothing changes.
pub fn place_monster(kind: MonsterKind, x: i32, y: i32, map: &LevelMap, objects: &mut Vec<Object>)
    requires
        map.wf(),
        map.in_bounds(x as int, y as int),
    ensures
        blocked_at(map, old(objects)@, x as int, y as int) ==> final(objects)@ == old(objects)@,
        !blocked_at(map, old(objects)@, x as int, y as int) ==> one_more(
            old(objects)@,
            final(objects)@,
        ) && is_monster(final(objects)@.last(), kind, x, y),
{
    let monster = make_monster(kind, x, y);
    if !is_blocked(x, y, map, objects.as_slice()) {
        objects.push(monster);
        assert(objects@.subrange(0, old(objects)@.len() as int) =~= old(objects)@);
    }
}

/// Lays the given item on the floor at `(x, y)`, as the last object, unless
/// the terrain or a blocking object stops movement there; then nothing
/// changes.
pub fn place_item(item: Item, x: i32, y: i32, map: &LevelMap, objects: &mut Vec<Object>)
    requires
        map.wf(),
        map.in_bounds(x as int, y as int),
    ensures
        blocked_at(map, old(objects)@, x as int, y as int) ==> final(objects)@ == old(objects)@,
        !blocked_at(map, old(objects)@, x as int, y as int) ==> one_more(
            old(objects)@,
            final(objects)@,
        ) && is_item_object(final(objects)@.last(), item, x, y),
{
    if !is_blocked(x, y, map, objects.as_slice()) {
        objects.push(make_item(item, x, y));
        assert(objects@.subrange(0, old(objects)@.len() as int) =~= old(objects)@);
    }
}

/// Puts a torch at `(x, y)`, as the last object, unless the terrain or a
/// blocking object stops movement there; then nothing changes.
pub fn place_torch(x: i32, y: i32, map: &LevelMap, objects: &mut Vec<Object>)
    requires
        map.wf(),
        map.in_bounds(x as int, y as int),
    ensures
        blocked_at(map, old(objects)@, x as int, y as int) ==> final(objects)@ == old(objects)@,
        !blocked_at(map, old(objects)@, x as int, y as int) ==> one_more(
            old(objects)@,
            final(objects)@,
        ) && is_torch(final(objects)@.last(), x, y),
{
    if !is_blocked(x, y, map, objects.as_slice()) {
        objects.push(make_torch(x, y));
        assert(objects@.subrange(0, old(objects)@.len() as int) =~= old(objects)@);
    }
}

/// Puts monsters, items and perhaps a torch into a room. How many of each
/// is drawn at random up to what the dungeon level allows, and so is the
/// kind of each, by the weights of that level. Each gets a random place on
/// the room's floor and is left out if that place is taken.
pub fn place_objects(room: Rect, map: &LevelMap, objects: &mut Vec<Object>, level: u32)
    requires
        map.wf(),
        room.x1 + 1 < room.x2,
        room.y1 + 1 < room.y2,
        map.in_bounds(room.x1 + 1, room.y1 + 1),
        map.in_bounds(room.x2 - 1, room.y2 - 1),
    ensures
        exists|monsters: int, items: int| #[trigger]
            populated(old(objects)@, final(objects)@, room, map, level, monsters, items),
{
    let ghost before = objects@;
    let num_monsters: i32 = random_range(0, max_monsters(level) as i32 + 1);
    let monster_weights = monster_chances(level);
    let mut attempt: i32 = 0;
    while attempt < num_monsters
        invariant
            map.wf(),
            room.x1 + 1 < room.x2,
            room.y1 + 1 < room.y2,
            map.in_bounds(room.x1 + 1, room.y1 + 1),
            map.in_bounds(room.x2 - 1, room.y2 - 1),
            0 <= attempt <= num_monsters <= table_value(max_monsters_table(), level),
            monster_weights@.len() == monster_order().len(),
            forall|i: int|
                0 <= i < monster_weights@.len() ==> #[trigger] monster_weights@[i]
                    == monster_chance(monster_order()[i], level),
            80 <= total_weight(monster_weights@) <= 140,
            before.len() <= objects@.len() <= before.len() + attempt,
            objects@.subrange(0, before.len() as int) == before,
            forall|i: int|
                before.len() <= i < objects@.len() ==> #[trigger] placed(objects@, i, room, map),
            forall|i: int|
                before.len() <= i < objects@.len() ==> is_level_monster(
                    #[trigger] objects@[i],
                    level,
                ),
        decreases num_monsters - attempt,
    {
        let x: i32 = random_range(room.x1 + 1, room.x2);
        let y: i32 = random_range(room.y1 + 1, room.y2);
        let choice: usize = weighted_index(&monster_weights);
        let kind = monster_at_index(choice);
        assert(monster_chance(kind, level) > 0) by {
            assert(monster_weights@[choice as int] == monster_chance(
                monster_order()[choice as int],
                level,
            ));
        }
        let ghost earlier = objects@;
        place_monster(kind, x, y, map, objects);
        proof {
            if objects@ != earlier {
                lemma_one_more_placed(earlier, objects@, room, map);
                assert(objects@.subrange(0, before.len() as int) =~= earlier.subrange(
                    0,
                    before.len() as int,
                ));
                assert(objects@.last() == objects@[earlier.len() as int]);
                assert(is_monster(
                    objects@[earlier.len() as int],
                    kind,
                    objects@[earlier.len() as int].x,
                    objects@[earlier.len() as int].y,
                ));
            }
        }
        attempt = attempt + 1;
    }
    let ghost monsters: int = objects@.len() - before.len();
    let ghost with_monsters = objects@;

    let num_items: i32 = random_range(0, max_items(level) as i32 + 1);
    let item_weights = item_chances(level);
    let mut attempt: i32 = 0;
    while attempt < num_items
        invariant
            map.wf(),
            room.x1 + 1 < room.x2,
            room.y1 + 1 < room.y2,
            map.in_bounds(room.x1 + 1, room.y1 + 1),
            map.in_bounds(room.x2 - 1, room.y2 - 1),
            0 <= attempt <= num_items <= table_value(max_items_table(), level),
            item_weights@.len() == item_order().len(),
            forall|i: int|
                0 <= i < item_weights@.len() ==> #[trigger] item_weights@[i] == item_chance(
                    item_order()[i],
                    level,
                ),
            35 <= total_weight(item_weights@) <= 115,
            before.len() + monsters == with_monsters.len(),
            with_monsters.len() <= objects@.len() <= with_monsters.len() + attempt,
            objects@.subrange(0, with_monsters.len() as int) == with_monsters,
            forall|i: int|
                before.len() <= i < objects@.len() ==> #[trigger] placed(objects@, i, room, map),
            forall|i: int|
                with_monsters.len() <= i < objects@.len() ==> is_level_item(
                    #[trigger] objects@[i],
                    level,
                ),
        decreases num_items - attempt,
    {
        let x: i32 = random_range(room.x1 + 1, room.x2);
        let y: i32 = random_range(room.y1 + 1, room.y2);
        let choice: usize = weighted_index(&item_weights);
        let item = item_at_index(choice);
        assert(item_chance(item, level) > 0) by {
            assert(item_weights@[choice as int] == item_chance(item_order()[choice as int], level));
        }
        let ghost earlier = objects@;
        place_item(item, x, y, map, objects);
        proof {
            if objects@ != earlier {
                lemma_one_more_placed(earlier, objects@, room, map);
                assert(objects@.subrange(0, with_monsters.len() as int) =~= earlier.subrange(
                    0,
                    with_monsters.len() as int,
                ));
                assert(objects@.last() == objects@[earlier.len() as int]);
                assert(is_item_object(
                    objects@[earlier.len() as int],
                    item,
                    objects@[earlier.len() as int].x,
                    objects@[earlier.len() as int].y,
                ));
            }
        }
        attempt = attempt + 1;
    }
    let ghost items: int = objects@.len() - with_monsters.len();
    let ghost with_items = objects@;

    let num_torches: i32 = random_range(0, 2);
    if num_torches > 0 {
        let x: i32 = random_range(room.x1 + 1, room.x2);
        let y: i32 = random_range(room.y1 + 1, room.y2);
        place_torch(x, y, map, objects);
        proof {
            if objects@ != with_items {
                lemma_one_more_placed(with_items, objects@, room, map);
                assert(objects@.last() == objects@[with_items.len() as int]);
            }
        }
    }
    proof {
        assert(objects@.subrange(0, with_items.len() as int) =~= with_items);
        assert(objects@.subrange(0, before.len() as int) =~= with_items.subrange(
            0,
            before.len() as int,
        ));
        assert(with_items.subrange(0, before.len() as int) =~= with_monsters.subrange(
            0,
            before.len() as int,
        ));
        assert forall|i: int| before.len() <= i < before.len() + monsters implies is_level_monster(
            #[trigger] objects@[i],
            level,
        ) by {
            assert(objects@[i] == with_items[i]);
            assert(with_items[i] == with_monsters[i]);
        }
        assert forall|i: int|
            before.len() + monsters <= i < before.len() + monsters + items implies is_level_item(
            #[trigger] objects@[i],
            level,
        ) by {
            assert(objects@[i] == with_items[i]);
        }
        assert(populated(before, objects@, room, map, level, monsters, items));
    }
}

/// The room lies in the grid, rim excluded from its floor, and has floor.
pub open spec fn room_fits(room: Rect, map: &LevelMap) -> bool {
    &&& 0 <= room.x1
    &&& room.x1 + 2 <= room.x2 <= map.width() - 1
    &&& 0 <= room.y1
    &&& room.y1 + 2 <= room.y2 <= map.height() - 1
}

/// The sides of the room are of a length the configuration allows.
pub open spec fn room_sized(room: Rect, config: &Config) -> bool {
    &&& config.room_min_size <= room.x2 - room.x1 <= config.room_max_size
    &&& config.room_min_size <= room.y2 - room.y1 <= config.room_max_size
}

/// The centre of a room, as a position.
pub open spec fn center_of(room: Rect) -> (int, int) {
    (room.center_x(), room.center_y())
}

/// `map` is a dungeon level made of `rooms`: a closed rim, nothing but rock
/// and floor, rooms that fit the grid and whose floors are open, no two
/// rooms with a tile in common, boundaries included, and a walk over open
/// tiles from the centre of the first room to the centre of every room.
pub open spec fn laid_out(map: &LevelMap, rooms: Seq<Rect>) -> bool {
    &&& map.wf()
    &&& map.enclosed()
    &&& map.rock_and_floor()
    &&& forall|i: int| 0 <= i < rooms.len() ==> room_fits(#[trigger] rooms[i], map)
    &&& forall|i: int, x: int, y: int|
        0 <= i < rooms.len() && #[trigger] rooms[i].contains_floor(x, y) ==> map.open_at(x, y)
    &&& forall|i: int, j: int|
        #![trigger rooms[i], rooms[j]]
        0 <= i < rooms.len() && 0 <= j < rooms.len() && i != j ==> !rooms[i].overlaps(&rooms[j])
    &&& forall|i: int|
        0 <= i < rooms.len() ==> connected(map, center_of(rooms[0]), center_of(#[trigger] rooms[i]))
}

/// `x` lies between `a` and `b`, whichever is smaller, ends included.
pub open spec fn between(a: int, b: int, x: int) -> bool {
    a <= x <= b || b <= x <= a
}

/// `(x, y)` lies on an L-shaped tunnel from `from` to `to`: on the row of
/// `from` or the column of `to`, between the two, or else on the column of
/// `from` or the row of `to`.
pub open spec fn on_tunnel(from: (int, int), to: (int, int), x: int, y: int) -> bool {
    ||| y == from.1 && between(from.0, to.0, x)
    ||| x == to.0 && between(from.1, to.1, y)
    ||| x == from.0 && between(from.1, to.1, y)
    ||| y == to.1 && between(from.0, to.0, x)
}

/// `(x, y)` is floor of one of the rooms.
pub open spec fn in_some_room(rooms: Seq<Rect>, x: int, y: int) -> bool {
    exists|i: int| 0 <= i < rooms.len() && (#[trigger] rooms[i]).contains_floor(x, y)
}

/// `(x, y)` lies on a tunnel from the centre of one of the rooms to the
/// centre of the next.
pub open spec fn on_some_tunnel(rooms: Seq<Rect>, x: int, y: int) -> bool {
    exists|i: int|
        0 <= i < rooms.len() - 1 && on_tunnel(
            center_of(#[trigger] rooms[i]),
            center_of(rooms[i + 1]),
            x,
            y,
        )
}

/// Nothing is open but what was dug: every open tile is floor of a room or
/// lies on a tunnel between one room and the next.
pub open spec fn only_dug(map: &LevelMap, rooms: Seq<Rect>) -> bool {
    forall|x: int, y: int| #[trigger]
        map.open_at(x, y) ==> in_some_room(rooms, x, y) || on_some_tunnel(rooms, x, y)
}

/// A generated level: the grid and the rooms it was made of, in the order
/// in which they were accepted.
#[derive(Clone, Debug)]
pub struct Level {
    pub map: LevelMap,
    pub rooms: Vec<Rect>,
}

/// `room` has a tile in common with one of `rooms`, boundaries included.
pub open spec fn overlaps_some(rooms: Seq<Rect>, room: Rect) -> bool {
    exists|i: int| 0 <= i < rooms.len() && room.overlaps(&#[trigger] rooms[i])
}

/// Whether `room` has a tile in common with any of `rooms`.
pub fn overlaps_any(rooms: &Vec<Rect>, room: &Rect) -> (b: bool)
    ensures
        b == overlaps_some(rooms@, *room),
{
    let mut i: usize = 0;
    while i < rooms.len()
        invariant
            i <= rooms@.len(),
            forall|j: int| 0 <= j < i ==> !room.overlaps(&#[trigger] rooms@[j]),
        decreases rooms@.len() - i,
    {
        if room.intersects_with(&rooms[i]) {
            return true;
        }
        i = i + 1;
    }
    false
}

/// `(x, y)` lies on the L-shaped tunnel from `from` to `to` that runs
/// along the row of `from` and then the column of `to`, or, if not
/// `horizontal_first`, along the column of `from` and then the row of `to`.
pub open spec fn on_legs(
    from: (int, int),
    to: (int, int),
    horizontal_first: bool,
    x: int,
    y: int,
) -> bool {
    if horizontal_first {
        (y == from.1 && between(from.0, to.0, x)) || (x == to.0 && between(from.1, to.1, y))
    } else {
        (x == from.0 && between(from.1, to.1, y)) || (y == to.1 && between(from.0, to.0, x))
    }
}

/// Digs an L-shaped tunnel from `from` to `to`: along the row of `from`
/// and then the column of `to`, or along the column of `from` and then the
/// row of `to`. The tiles of the tunnel become open floor, nothing else
/// changes, and a walk along the tunnel joins its ends.
pub fn dig_tunnels(from: (i32, i32), to: (i32, i32), horizontal_first: bool, map: &mut LevelMap)
    requires
        old(map).wf(),
        old(map).in_bounds(from.0 as int, from.1 as int),
        old(map).in_bounds(to.0 as int, to.1 as int),
    ensures
        final(map).wf(),
        final(map).width() == old(map).width(),
        final(map).height() == old(map).height(),
        forall|x: int, y: int|
            final(map).in_bounds(x, y) ==> #[trigger] final(map).tile(x, y) == if on_legs(
                (from.0 as int, from.1 as int),
                (to.0 as int, to.1 as int),
                horizontal_first,
                x,
                y,
            ) {
                Tile::empty()
            } else {
                old(map).tile(x, y)
            },
        connected(final(map), (from.0 as int, from.1 as int), (to.0 as int, to.1 as int)),
{
    if horizontal_first {
        create_h_tunnel(from.0, to.0, from.1, map);
        let ghost halfway = *map;
        create_v_tunnel(from.1, to.1, to.0, map);
        proof {
            assert forall|x: int|
                (from.0 <= x <= to.0 || to.0 <= x <= from.0) implies #[trigger] map.open_at(
                x,
                from.1 as int,
            ) by {
                assert(halfway.tile(x, from.1 as int) == Tile::empty());
                assert(map.tile(x, from.1 as int) == Tile::empty());
            }
            lemma_row_connected(map, from.0 as int, to.0 as int, from.1 as int);
            assert forall|y: int|
                (from.1 <= y <= to.1 || to.1 <= y <= from.1) implies #[trigger] map.open_at(
                to.0 as int,
                y,
            ) by {
                assert(map.tile(to.0 as int, y) == Tile::empty());
            }
            lemma_column_connected(map, to.0 as int, from.1 as int, to.1 as int);
            lemma_connected_onwards(
                map,
                (from.0 as int, from.1 as int),
                (to.0 as int, from.1 as int),
                (to.0 as int, to.1 as int),
            );
            assert forall|x: int, y: int| map.in_bounds(x, y) implies #[trigger] map.tile(x, y)
                == if on_legs(
                (from.0 as int, from.1 as int),
                (to.0 as int, to.1 as int),
                horizontal_first,
                x,
                y,
            ) {
                Tile::empty()
            } else {
                old(map).tile(x, y)
            } by {
                assert(halfway.tile(x, y) == halfway.tile(x, y));
            }
        }
    } else {
        create_v_tunnel(from.1, to.1, from.0, map);
        let ghost halfway = *map;
        create_h_tunnel(from.0, to.0, to.1, map);
        proof {
            assert forall|y: int|
                (from.1 <= y <= to.1 || to.1 <= y <= from.1) implies #[trigger] map.open_at(
                from.0 as int,
                y,
            ) by {
                assert(halfway.tile(from.0 as int, y) == Tile::empty());
                assert(map.tile(from.0 as int, y) == Tile::empty());
            }
            lemma_column_connected(map, from.0 as int, from.1 as int, to.1 as int);
            assert forall|x: int|
                (from.0 <= x <= to.0 || to.0 <= x <= from.0) implies #[trigger] map.open_at(
                x,
                to.1 as int,
            ) by {
                assert(map.tile(x, to.1 as int) == Tile::empty());
            }
            lemma_row_connected(map, from.0 as int, to.0 as int, to.1 as int);
            lemma_connected_onwards(
                map,
                (from.0 as int, from.1 as int),
                (from.0 as int, to.1 as int),
                (to.0 as int, to.1 as int),
            );
            assert forall|x: int, y: int| map.in_bounds(x, y) implies #[trigger] map.tile(x, y)
                == if on_legs(
                (from.0 as int, from.1 as int),
                (to.0 as int, to.1 as int),
                horizontal_first,
                x,
                y,
            ) {
                Tile::empty()
            } else {
                old(map).tile(x, y)
            } by {
                assert(halfway.tile(x, y) == halfway.tile(x, y));
            }
        }
    }
}

/// The centre of the room accepted last, if there is a room.
pub open spec fn last_center(rooms: Seq<Rect>) -> Option<(int, int)> {
    if rooms.len() > 0 {
        Some(center_of(rooms.last()))
    } else {
        None
    }
}

/// `after` is `before` with `room` added to `rooms`: the floor of the room
/// is open floor, and so is the tunnel from the centre of the room before
/// it, if there is one, along the legs that `horizontal_first` names; every
/// other tile is as it was.
pub open spec fn room_opened(
    before: &LevelMap,
    after: &LevelMap,
    rooms: Seq<Rect>,
    room: Rect,
    horizontal_first: bool,
) -> bool {
    &&& after.width() == before.width()
    &&& after.height() == before.height()
    &&& forall|x: int, y: int|
        after.in_bounds(x, y) ==> #[trigger] after.tile(x, y) == if room.contains_floor(x, y) || (
        last_center(rooms) matches Some(from) && on_legs(
            from,
            center_of(room),
            horizontal_first,
            x,
            y,
        )) {
            Tile::empty()
        } else {
            before.tile(x, y)
        }
}

/// The floor of the room is not empty and lies on the grid.
pub open spec fn has_floor_on(room: Rect, map: &LevelMap) -> bool {
    &&& room.x1 + 1 < room.x2
    &&& room.y1 + 1 < room.y2
    &&& map.in_bounds(room.x1 + 1, room.y1 + 1)
    &&& map.in_bounds(room.x2 - 1, room.y2 - 1)
}

/// What a room received does not depend on the grid beyond the floor of
/// the room.
proof fn lemma_populated_on(
    before: Seq<Object>,
    after: Seq<Object>,
    room: Rect,
    first: &LevelMap,
    second: &LevelMap,
    level: u32,
    monsters: int,
    items: int,
)
    requires
        populated(before, after, room, first, level, monsters, items),
        forall|x: int, y: int|
            room.contains_floor(x, y) ==> #[trigger] second.tile(x, y) == first.tile(x, y),
    ensures
        populated(before, after, room, second, level, monsters, items),
{
    assert forall|i: int| before.len() <= i < after.len() implies #[trigger] placed(
        after,
        i,
        room,
        second,
    ) by {
        assert(placed(after, i, room, first));
        assert(second.tile(after[i].x as int, after[i].y as int) == first.tile(
            after[i].x as int,
            after[i].y as int,
        ));
    }
}

/// Tries to add `new_room` to the level. A room that has a tile in common
/// with a room already there, boundaries included, is refused and nothing
/// changes. Otherwise the room is accepted: its floor is opened and
/// populated; the first room receives the player at its centre, and every
/// later one is joined to the centre of the room before it by the tunnel
/// that `horizontal_first` names.
pub fn try_room(
    new_room: Rect,
    horizontal_first: bool,
    level: u32,
    map: &mut LevelMap,
    rooms: &mut Vec<Rect>,
    objects: &mut Vec<Object>,
) -> (accepted: bool)
    requires
        old(map).wf(),
        has_floor_on(new_room, old(map)),
        old(objects)@.len() >= 1,
        last_center(old(rooms)@) matches Some(from) ==> old(map).in_bounds(from.0, from.1),
    ensures
        accepted == !overlaps_some(old(rooms)@, new_room),
        !accepted ==> *final(map) == *old(map) && final(rooms)@ == old(rooms)@ && final(objects)@
            == old(objects)@,
        accepted ==> {
            &&& final(rooms)@ == old(rooms)@.push(new_room)
            &&& final(map).wf()
            &&& room_opened(old(map), final(map), old(rooms)@, new_room, horizontal_first)
            &&& last_center(old(rooms)@) matches Some(from) ==> connected(
                final(map),
                from,
                center_of(new_room),
            )
            &&& final(objects)@.len() >= old(objects)@.len()
            &&& final(objects)@[0] == if old(rooms)@.len() == 0 {
                Object {
                    x: new_room.center_x() as i32,
                    y: new_room.center_y() as i32,
                    ..old(objects)@[0]
                }
            } else {
                old(objects)@[0]
            }
            &&& exists|monsters: int, items: int| #[trigger]
                populated(
                    old(objects)@,
                    final(objects)@.update(0, old(objects)@[0]),
                    new_room,
                    final(map),
                    level,
                    monsters,
                    items,
                )
        },
{
    if overlaps_any(rooms, &new_room) {
        return false;
    }
    create_room(new_room, map);
    let ghost with_room = *map;
    place_objects(new_room, map, objects, level);
    let ghost filled = objects@;
    let (new_x, new_y) = new_room.center();
    assert(new_room.contains_floor(new_x as int, new_y as int));
    if rooms.len() == 0 {
        objects[PLAYER].set_pos(new_x, new_y);
    } else {
        let (prev_x, prev_y) = rooms[rooms.len() - 1].center();
        assert(rooms@.last() == rooms@[rooms@.len() - 1]);
        dig_tunnels((prev_x, prev_y), (new_x, new_y), horizontal_first, map);
    }
    proof {
        let (monsters, items) = choose|monsters: int, items: int| #[trigger]
            populated(old(objects)@, filled, new_room, &with_room, level, monsters, items);
        assert forall|x: int, y: int| new_room.contains_floor(x, y) implies #[trigger] map.tile(
            x,
            y,
        ) == with_room.tile(x, y) by {
            assert(with_room.in_bounds(x, y));
            assert(with_room.tile(x, y) == Tile::empty());
        }
        lemma_populated_on(
            old(objects)@,
            filled,
            new_room,
            &with_room,
            map,
            level,
            monsters,
            items,
        );
        assert(filled.subrange(0, old(objects)@.len() as int)[0] == filled[0]);
        assert(objects@.update(0, old(objects)@[0]) =~= filled);
        assert forall|x: int, y: int| map.in_bounds(x, y) implies #[trigger] map.tile(x, y)
            == if new_room.contains_floor(x, y) || (last_center(old(rooms)@) matches Some(from)
            && on_legs(from, center_of(new_room), horizontal_first, x, y)) {
            Tile::empty()
        } else {
            old(map).tile(x, y)
        } by {
            assert(with_room.tile(x, y) == with_room.tile(x, y));
        }
    }
    rooms.push(new_room);
    true
}

/// Adding a room to a level keeps it a level, and free of openings that
/// were not dug: the room fits and meets no other, its floor and the
/// tunnel to it were opened and nothing else, and the tunnel joins its
/// centre to the centre of the room before it.
proof fn lemma_room_added(
    before: &LevelMap,
    after: &LevelMap,
    rooms: Seq<Rect>,
    room: Rect,
    horizontal_first: bool,
)
    requires
        laid_out(before, rooms),
        only_dug(before, rooms),
        room_fits(room, before),
        !overlaps_some(rooms, room),
        after.wf(),
        room_opened(before, after, rooms, room, horizontal_first),
        last_center(rooms) matches Some(from) ==> connected(after, from, center_of(room)),
    ensures
        laid_out(after, rooms.push(room)),
        only_dug(after, rooms.push(room)),
        before.opens_into(after),
        forall|x: int, y: int| room.contains_floor(x, y) ==> #[trigger] after.open_at(x, y),
{
    let all = rooms.push(room);
    let middle = center_of(room);
    assert(room.contains_floor(middle.0, middle.1));
    if rooms.len() > 0 {
        assert(rooms.last() == rooms[rooms.len() - 1]);
        assert(room_fits(rooms[rooms.len() - 1], before));
    }
    assert(after.carved_from(before)) by {
        assert forall|x: int, y: int| after.in_bounds(x, y) implies #[trigger] after.tile(x, y)
            == before.tile(x, y) || (after.tile(x, y) == Tile::empty() && after.interior(x, y)) by {
            if room.contains_floor(x, y) {
            } else if rooms.len() > 0 && on_legs(
                center_of(rooms.last()),
                middle,
                horizontal_first,
                x,
                y,
            ) {
            }
        }
    }
    lemma_carving(before, after);
    assert forall|x: int, y: int| room.contains_floor(x, y) implies #[trigger] after.open_at(
        x,
        y,
    ) by {
        assert(after.in_bounds(x, y));
        assert(after.tile(x, y) == Tile::empty());
    }
    assert forall|i: int| 0 <= i < all.len() implies room_fits(#[trigger] all[i], after) by {
        if i < rooms.len() {
            assert(all[i] == rooms[i]);
        }
    }
    assert forall|i: int, x: int, y: int|
        0 <= i < all.len() && #[trigger] all[i].contains_floor(x, y) implies after.open_at(
        x,
        y,
    ) by {
        if i < rooms.len() {
            assert(all[i] == rooms[i]);
            assert(rooms[i].contains_floor(x, y));
            assert(before.open_at(x, y));
        }
    }
    assert forall|i: int, j: int|
        #![trigger all[i], all[j]]
        0 <= i < all.len() && 0 <= j < all.len() && i != j implies !all[i].overlaps(&all[j]) by {
        if i < rooms.len() && j < rooms.len() {
            assert(all[i] == rooms[i] && all[j] == rooms[j]);
        } else if i < rooms.len() {
            assert(all[i] == rooms[i]);
            assert(!room.overlaps(&rooms[i]));
        } else {
            assert(all[j] == rooms[j]);
            assert(!room.overlaps(&rooms[j]));
        }
    }
    assert(after.open_at(middle.0, middle.1));
    assert forall|i: int| 0 <= i < all.len() implies connected(
        after,
        center_of(all[0]),
        center_of(#[trigger] all[i]),
    ) by {
        if rooms.len() == 0 {
            lemma_connected_here(after, middle);
        } else {
            assert(all[0] == rooms[0]);
            if i < rooms.len() {
                assert(all[i] == rooms[i]);
                lemma_connected_still(before, after, center_of(rooms[0]), center_of(rooms[i]));
            } else {
                lemma_connected_still(
                    before,
                    after,
                    center_of(rooms[0]),
                    center_of(rooms[rooms.len() - 1]),
                );
                lemma_connected_onwards(
                    after,
                    center_of(rooms[0]),
                    center_of(rooms.last()),
                    middle,
                );
            }
        }
    }
    assert forall|x: int, y: int| #[trigger] after.open_at(x, y) implies in_some_room(all, x, y)
        || on_some_tunnel(all, x, y) by {
        if room.contains_floor(x, y) {
            assert(all[rooms.len() as int] == room);
            assert(all[rooms.len() as int].contains_floor(x, y));
        } else if rooms.len() > 0 && on_legs(
            center_of(rooms.last()),
            middle,
            horizontal_first,
            x,
            y,
        ) {
            let i = rooms.len() - 1;
            assert(all[i] == rooms.last());
            assert(all[i + 1] == room);
            assert(on_tunnel(center_of(all[i]), center_of(all[i + 1]), x, y));
        } else {
            assert(after.tile(x, y) == before.tile(x, y));
            assert(before.open_at(x, y));
            if in_some_room(rooms, x, y) {
                let i = choose|i: int|
                    0 <= i < rooms.len() && (#[trigger] rooms[i]).contains_floor(x, y);
                assert(all[i] == rooms[i]);
                assert(all[i].contains_floor(x, y));
            } else {
                let i = choose|i: int|
                    0 <= i < rooms.len() - 1 && on_tunnel(
                        center_of(#[trigger] rooms[i]),
                        center_of(rooms[i + 1]),
                        x,
                        y,
                    );
                assert(all[i] == rooms[i]);
                assert(all[i + 1] == rooms[i + 1]);
                assert(on_tunnel(center_of(all[i]), center_of(all[i + 1]), x, y));
            }
        }
    }
}

/// No two objects that block stand on one tile, the first object, which is
/// the player, left aside: the player starts where the first room may
/// have received a monster before.
pub open spec fn apart(objects: Seq<Object>) -> bool {
    forall|i: int, j: int|
        #![trigger objects[i], objects[j]]
        1 <= i < j < objects.len() && objects[i].blocks && objects[j].blocks ==> !objects[j].at(
            objects[i].x as int,
            objects[i].y as int,
        )
}

/// `after` is what the entity store holds once a level has been generated
/// around the player of `before`: the player, otherwise unchanged, at the
/// centre of the first room; then what the rooms received; last the
/// stairway down, at the centre of the last room. Everything stands on an
/// open tile, and no two of the things put there that block stand on the
/// same one.
pub open spec fn stocked(
    before: Seq<Object>,
    after: Seq<Object>,
    map: &LevelMap,
    rooms: Seq<Rect>,
    level: u32,
) -> bool {
    &&& after.len() >= 2
    &&& after[0] == (Object {
        x: rooms[0].center_x() as i32,
        y: rooms[0].center_y() as i32,
        ..before[0]
    })
    &&& is_stairs(after.last(), rooms.last().center_x() as i32, rooms.last().center_y() as i32)
    &&& forall|i: int| 1 <= i < after.len() - 1 ==> is_spawn(#[trigger] after[i], level)
    &&& forall|i: int|
        0 <= i < after.len() ==> map.open_at((#[trigger] after[i]).x as int, after[i].y as int)
    &&& apart(after)
}

/// Generates a level around the player, who is the first entity of
/// `objects`; every other entity is discarded. Rooms of random size are
/// tried at random places, as many times as the configuration says; one
/// that touches an earlier room is dropped. Each room that is kept is
/// opened, populated, and joined to the room before it by a tunnel. The
/// player is moved to the centre of the first room and the stairs are put
/// at the centre of the last.
pub fn generate(objects: &mut Vec<Object>, level: u32, config: &Config) -> (made: Level)
    requires
        config.can_generate(),
        old(objects)@.len() >= 1,
    ensures
        made.map.width() == config.map_width,
        made.map.height() == config.map_height,
        1 <= made.rooms@.len() <= config.max_rooms,
        laid_out(&made.map, made.rooms@),
        only_dug(&made.map, made.rooms@),
        forall|i: int| 0 <= i < made.rooms@.len() ==> room_sized(#[trigger] made.rooms@[i], config),
        stocked(old(objects)@, final(objects)@, &made.map, made.rooms@, level),
        final(objects)@.len() <= 2 + 8 * made.rooms@.len(),
        connected(
            &made.map,
            (final(objects)@[0].x as int, final(objects)@[0].y as int),
            (final(objects)@.last().x as int, final(objects)@.last().y as int),
        ),
{
    let mut map = LevelMap::filled(config.map_width, config.map_height, Tile::wall());
    objects.truncate(1);
    let ghost start = old(objects)@;
    let mut rooms: Vec<Rect> = Vec::new();
    let mut attempt: i32 = 0;
    while attempt < config.max_rooms
        invariant
            config.can_generate(),
            0 <= attempt <= config.max_rooms,
            map.width() == config.map_width,
            map.height() == config.map_height,
            laid_out(&map, rooms@),
            only_dug(&map, rooms@),
            forall|i: int| 0 <= i < rooms@.len() ==> room_sized(#[trigger] rooms@[i], config),
            rooms@.len() <= attempt,
            attempt >= 1 ==> rooms@.len() >= 1,
            start.len() >= 1,
            1 <= objects@.len() <= 1 + 8 * rooms@.len(),
            objects@[0] == (Object { x: objects@[0].x, y: objects@[0].y, ..start[0] }),
            rooms@.len() >= 1 ==> objects@[0].x == rooms@[0].center_x() && objects@[0].y
                == rooms@[0].center_y(),
            forall|i: int| 1 <= i < objects@.len() ==> is_spawn(#[trigger] objects@[i], level),
            forall|i: int|
                1 <= i < objects@.len() ==> map.open_at(
                    (#[trigger] objects@[i]).x as int,
                    objects@[i].y as int,
                ),
            apart(objects@),
        decreases config.max_rooms - attempt,
    {
        let w: i32 = random_range(config.room_min_size, config.room_max_size + 1);
        let h: i32 = random_range(config.room_min_size, config.room_max_size + 1);
        let x: i32 = random_range(0, config.map_width - w);
        let y: i32 = random_range(0, config.map_height - h);
        let new_room = Rect::new(x, y, w, h);
        let horizontal_first = rooms.len() > 0 && random_bool();
        let ghost before = map;
        let ghost earlier = objects@;
        let ghost known = rooms@;
        proof {
            assert(room_fits(new_room, &before));
            if known.len() > 0 {
                assert(known.last() == known[known.len() - 1]);
                assert(room_fits(known[known.len() - 1], &before));
            }
        }
        let accepted = try_room(new_room, horizontal_first, level, &mut map, &mut rooms, objects);
        proof {
            if accepted {
                lemma_room_added(&before, &map, known, new_room, horizontal_first);
                let filled = objects@.update(0, earlier[0]);
                let (monsters, items) = choose|monsters: int, items: int| #[trigger]
                    populated(earlier, filled, new_room, &map, level, monsters, items);
                lemma_populated_with_spawns(earlier, filled, new_room, &map, level, monsters, items);
                lemma_room_capacity(level);
                assert(filled.len() <= earlier.len() + 8);
                assert forall|i: int| 1 <= i < objects@.len() implies is_spawn(
                    #[trigger] objects@[i],
                    level,
                ) && map.open_at(objects@[i].x as int, objects@[i].y as int) by {
                    assert(objects@[i] == filled[i]);
                    if i < earlier.len() {
                        assert(filled.subrange(0, earlier.len() as int)[i] == filled[i]);
                        assert(filled[i] == earlier[i]);
                        assert(before.open_at(earlier[i].x as int, earlier[i].y as int));
                    } else {
                        assert(placed(filled, i, new_room, &map));
                    }
                }
                assert forall|i: int, j: int|
                    #![trigger objects@[i], objects@[j]]
                    1 <= i < j < objects@.len() && objects@[i].blocks
                        && objects@[j].blocks implies !objects@[j].at(
                    objects@[i].x as int,
                    objects@[i].y as int,
                ) by {
                    assert(objects@[i] == filled[i] && objects@[j] == filled[j]);
                    if j < earlier.len() {
                        assert(filled.subrange(0, earlier.len() as int)[i] == filled[i]);
                        assert(filled.subrange(0, earlier.len() as int)[j] == filled[j]);
                        assert(earlier[i].blocks && earlier[j].blocks);
                    } else {
                        assert(placed(filled, j, new_room, &map));
                        assert(filled.subrange(0, j)[i] == filled[i]);
                    }
                }
                assert forall|i: int| 0 <= i < rooms@.len() implies room_sized(
                    #[trigger] rooms@[i],
                    config,
                ) by {
                    if i < known.len() {
                        assert(rooms@[i] == known[i]);
                    }
                }
            }
        }
        attempt = attempt + 1;
    }
    let (last_room_x, last_room_y) = rooms[rooms.len() - 1].center();
    proof {
        let last = rooms@[rooms@.len() - 1];
        assert(rooms@.last() == last);
        assert(room_fits(last, &map));
        assert(last.contains_floor(last_room_x as int, last_room_y as int));
        assert(map.open_at(last_room_x as int, last_room_y as int));
        let first = rooms@[0];
        assert(room_fits(first, &map));
        assert(first.contains_floor(first.center_x(), first.center_y()));
        assert(connected(&map, center_of(first), center_of(last)));
    }
    let ghost without_stairs = objects@;
    objects.push(make_stairs(last_room_x, last_room_y));
    proof {
        assert forall|i: int| 1 <= i < objects@.len() - 1 implies is_spawn(
            #[trigger] objects@[i],
            level,
        ) by {
            assert(objects@[i] == without_stairs[i]);
        }
        assert forall|i: int| 0 <= i < objects@.len() implies map.open_at(
            (#[trigger] objects@[i]).x as int,
            objects@[i].y as int,
        ) by {
            if i < without_stairs.len() {
                assert(objects@[i] == without_stairs[i]);
            }
        }
        assert(objects@[0] == without_stairs[0]);
        assert forall|i: int, j: int|
            #![trigger objects@[i], objects@[j]]
            1 <= i < j < objects@.len() && objects@[i].blocks
                && objects@[j].blocks implies !objects@[j].at(
            objects@[i].x as int,
            objects@[i].y as int,
        ) by {
            if j < without_stairs.len() {
                assert(objects@[i] == without_stairs[i] && objects@[j] == without_stairs[j]);
            } else {
                assert(objects@[j] == objects@.last());
            }
        }
    }
    Level { map: map, rooms: rooms }
}

/// Generates a level as `generate` does and hands out its grid alone.
pub fn make_map(objects: &mut Vec<Object>, level: u32, config: &Config) -> (map: LevelMap)
    requires
        config.can_generate(),
        old(objects)@.len() >= 1,
    ensures
        map.width() == config.map_width,
        map.height() == config.map_height,
        exists|rooms: Seq<Rect>|
            1 <= rooms.len() <= config.max_rooms && #[trigger] laid_out(&map, rooms) && stocked(
                old(objects)@,
                final(objects)@,
                &map,
                rooms,
                level,
            ) && only_dug(&map, rooms) && forall|i: int|
                0 <= i < rooms.len() ==> room_sized(#[trigger] rooms[i], config),
        final(objects)@.len() <= 2 + 8 * config.max_rooms,
        connected(
            &map,
            (final(objects)@[0].x as int, final(objects)@[0].y as int),
            (final(objects)@.last().x as int, final(objects)@.last().y as int),
        ),
{
    let made = generate(objects, level, config);
    assert(laid_out(&made.map, made.rooms@));
    made.map
}

/// A level without walls, for trying things out: every tile is open
/// floor, only the player is kept, and the player stands at `(50, 50)`
/// whether or not the grid reaches that far.
pub fn make_map_debug(objects: &mut Vec<Object>, level: u32, config: &Config) -> (map: LevelMap)
    requires
        config.map_width >= 1,
        config.map_height >= 1,
        old(objects)@.len() >= 1,
    ensures
        map.wf(),
        map.width() == config.map_width,
        map.height() == config.map_height,
        forall|x: int, y: int| map.in_bounds(x, y) ==> #[trigger] map.tile(x, y) == Tile::empty(),
        final(objects)@ == seq![(Object { x: 50, y: 50, ..old(objects)@[0] })],
{
    let map = LevelMap::filled(config.map_width, config.map_height, Tile::empty());
    objects.truncate(1);
    objects[PLAYER].set_pos(50, 50);
    assert(objects@ =~= seq![(Object { x: 50, y: 50, ..old(objects)@[0] })]);
    map
}

/// No two rooms of a level have a tile in common, their boundaries
/// included: between the floors of two rooms there are always two walls.
pub proof fn lemma_rooms_share_no_tile(map: &LevelMap, rooms: Seq<Rect>, i: int, j: int, x: int, y: int)
    requires
        laid_out(map, rooms),
        0 <= i < rooms.len(),
        0 <= j < rooms.len(),
        i != j,
    ensures
        !(rooms[i].contains(x, y) && rooms[j].contains(x, y)),
{
    assert(!rooms[i].overlaps(&rooms[j]));
}

} // verus!
