use vstd::prelude::*;
use vstd::string::*;
use crate::entity::{dist_sq, distance_squared, Fighter, Object, PLAYER};
use crate::fov::FovMap;
use crate::helper::LevelUpChoice;
use crate::messages::{menu_line_message, menu_line_text, worn_item_message, worn_item_text, INVENTORY_EMPTY};
use crate::session::Game;
use crate::text::{append_decimal, decimal};

verus! {

/// Most options a menu can offer: one per letter.
pub const MENU_CAPACITY: usize = 26;

/// The letter that selects option `index` of a menu.
pub open spec fn menu_letter(index: int) -> Seq<char> {
    if index == 0 {
        "a"@
    } else if index == 1 {
        "b"@
    } else if index == 2 {
        "c"@
    } else if index == 3 {
        "d"@
    } else if index == 4 {
        "e"@
    } else if index == 5 {
        "f"@
    } else if index == 6 {
        "g"@
    } else if index == 7 {
        "h"@
    } else if index == 8 {
        "i"@
    } else if index == 9 {
        "j"@
    } else if index == 10 {
        "k"@
    } else if index == 11 {
        "l"@
    } else if index == 12 {
        "m"@
    } else if index == 13 {
        "n"@
    } else if index == 14 {
        "o"@
    } else if index == 15 {
        "p"@
    } else if index == 16 {
        "q"@
    } else if index == 17 {
        "r"@
    } else if index == 18 {
        "s"@
    } else if index == 19 {
        "t"@
    } else if index == 20 {
        "u"@
    } else if index == 21 {
        "v"@
    } else if index == 22 {
        "w"@
    } else if index == 23 {
        "x"@
    } else if index == 24 {
        "y"@
    } else {
        "z"@
    }
}

fn letter_of(index: usize) -> (letter: &'static str)
    requires
        index < MENU_CAPACITY,
    ensures
        letter@ == menu_letter(index as int),
{
    if index == 0 {
        "a"
    } else if index == 1 {
        "b"
    } else if index == 2 {
        "c"
    } else if index == 3 {
        "d"
    } else if index == 4 {
        "e"
    } else if index == 5 {
        "f"
    } else if index == 6 {
        "g"
    } else if index == 7 {
        "h"
    } else if index == 8 {
        "i"
    } else if index == 9 {
        "j"
    } else if index == 10 {
        "k"
    } else if index == 11 {
        "l"
    } else if index == 12 {
        "m"
    } else if index == 13 {
        "n"
    } else if index == 14 {
        "o"
    } else if index == 15 {
        "p"
    } else if index == 16 {
        "q"
    } else if index == 17 {
        "r"
    } else if index == 18 {
        "s"
    } else if index == 19 {
        "t"
    } else if index == 20 {
        "u"
    } else if index == 21 {
        "v"
    } else if index == 22 {
        "w"
    } else if index == 23 {
        "x"
    } else if index == 24 {
        "y"
    } else {
        "z"
    }
}

/// The lines of a menu: each option behind the letter that selects it.
pub fn menu_lines(options: &Vec<String>) -> (lines: Vec<String>)
    requires
        options@.len() <= MENU_CAPACITY,
    ensures
        lines@.len() == options@.len(),
        forall|i: int|
            0 <= i < lines@.len() ==> (#[trigger] lines@[i])@ == menu_line_text(
                menu_letter(i),
                options@[i]@,
            ),
{
    let mut lines: Vec<String> = Vec::new();
    let mut i: usize = 0;
    while i < options.len()
        invariant
            i <= options@.len() <= MENU_CAPACITY,
            lines@.len() == i,
            forall|k: int|
                0 <= k < i ==> (#[trigger] lines@[k])@ == menu_line_text(
                    menu_letter(k),
                    options@[k]@,
                ),
        decreases options@.len() - i,
    {
        lines.push(menu_line_message(letter_of(i), options[i].as_str()));
        i = i + 1;
    }
    lines
}

/// Position in the alphabet of an unaccented Latin letter, capital or
/// small, counted from zero.
pub open spec fn letter_index(c: char) -> Option<int> {
    if 'a' <= c <= 'z' {
        Some(c as int - 'a' as int)
    } else if 'A' <= c <= 'Z' {
        Some(c as int - 'A' as int)
    } else {
        None
    }
}

/// The option of a menu that a key selects: the one at the key's place in
/// the alphabet, if the menu has that many options.
pub fn menu_choice(printable: char, option_count: usize) -> (choice: Option<usize>)
    requires
        option_count <= MENU_CAPACITY,
    ensures
        choice == match letter_index(printable) {
            Some(index) => if index < option_count {
                Some(index as usize)
            } else {
                None
            },
            None => None::<usize>,
        },
{
    let code: u32 = printable as u32;
    let index: u32 = if 97 <= code && code <= 122 {
        code - 97
    } else if 65 <= code && code <= 90 {
        code - 65
    } else {
        return None;
    };
    if (index as usize) < option_count {
        Some(index as usize)
    } else {
        None
    }
}

/// How the inventory lists an item: by its name, and where it is worn if
/// it is.
pub open spec fn inventory_label(item: Object) -> Seq<char> {
    match item.equipment {
        Some(e) => if e.equipped {
            worn_item_text(item.name@, e.slot.label())
        } else {
            item.name@
        },
        None => item.name@,
    }
}

/// The options of the inventory menu: one per item, or a single notice
/// that there is none.
pub fn inventory_options(game: &Game) -> (options: Vec<String>)
    ensures
        game.inventory@.len() == 0 ==> options@.len() == 1 && options@[0]@ == INVENTORY_EMPTY@,
        game.inventory@.len() > 0 ==> options@.len() == game.inventory@.len() && forall|i: int|
            0 <= i < options@.len() ==> (#[trigger] options@[i])@ == inventory_label(
                game.inventory@[i],
            ),
{
    let mut options: Vec<String> = Vec::new();
    if game.inventory.len() == 0 {
        options.push(String::from_str(INVENTORY_EMPTY));
        return options;
    }
    let mut i: usize = 0;
    while i < game.inventory.len()
        invariant
            i <= game.inventory@.len(),
            options@.len() == i,
            forall|k: int|
                0 <= k < i ==> (#[trigger] options@[k])@ == inventory_label(game.inventory@[k]),
        decreases game.inventory@.len() - i,
    {
        let item = &game.inventory[i];
        let label = match item.equipment {
            Some(e) => if e.equipped {
                worn_item_message(item.name.as_str(), e.slot.name())
            } else {
                item.name.clone()
            },
            None => item.name.clone(),
        };
        options.push(label);
        i = i + 1;
    }
    options
}

/// The inventory slot that a selection in the inventory menu stands for:
/// the option selected, unless the inventory is empty and the only option
/// was the notice of that.
pub fn inventory_choice(game: &Game, selected: Option<usize>) -> (slot: Option<usize>)
    ensures
        slot == if game.inventory@.len() > 0 {
            selected
        } else {
            None
        },
{
    if game.inventory.len() > 0 {
        selected
    } else {
        None
    }
}

/// How one look at the pointer ended while the player is asked for a tile.
#[derive(Clone, Copy, Debug, PartialEq, Eq, Structural)]
pub enum TargetStep {
    /// The tile at these coordinates was chosen.
    Chosen(i32, i32),
    /// The player called it off.
    Cancelled,
    /// Nothing was decided: look again.
    Pending,
}

/// What the pointer tells at one moment.
#[derive(Clone, Copy, Debug, PartialEq, Eq, Structural)]
pub struct Pointer {
    /// Column of the tile under the pointer.
    pub x: i32,
    /// Row of the tile under the pointer.
    pub y: i32,
    /// The accepting button was pressed.
    pub accept: bool,
    /// The refusing button or key was pressed.
    pub refuse: bool,
}

/// The tile `(x, y)` is within `max_range` of the player, or no range was
/// set.
pub open spec fn in_range(objects: Seq<Object>, x: int, y: int, max_range: Option<i32>) -> bool {
    match max_range {
        Some(range) => range >= 0 && dist_sq(
            objects[PLAYER as int].x as int,
            objects[PLAYER as int].y as int,
            x,
            y,
        ) <= range * range,
        None => true,
    }
}

/// Decides one look at the pointer while the player is asked for a tile. A
/// tile is chosen by accepting it while it is in the player's field of
/// view and in range. Otherwise refusing calls the choice off, and
/// anything else leaves it open.
pub fn target_tile_step(
    pointer: Pointer,
    fov: &FovMap,
    objects: &[Object],
    max_range: Option<i32>,
) -> (step: TargetStep)
    requires
        objects@.len() >= 1,
    ensures
        step == if pointer.accept && fov.visible(pointer.x as int, pointer.y as int) && in_range(
            objects@,
            pointer.x as int,
            pointer.y as int,
            max_range,
        ) {
            TargetStep::Chosen(pointer.x, pointer.y)
        } else if pointer.refuse {
            TargetStep::Cancelled
        } else {
            TargetStep::Pending
        },
{
    let in_fov = fov.is_in_fov(pointer.x, pointer.y);
    let within = match max_range {
        Some(range) => {
            let wide: i128 = range as i128;
            assert(0 <= wide * wide <= 0x1_0000_0000_0000_0000) by (nonlinear_arith)
                requires
                    -0x1_0000_0000 <= wide <= 0x1_0000_0000,
            ;
            range >= 0 && distance_squared(
                objects[PLAYER].x,
                objects[PLAYER].y,
                pointer.x,
                pointer.y,
            ) <= wide * wide
        },
        None => true,
    };
    if pointer.accept && in_fov && within {
        TargetStep::Chosen(pointer.x, pointer.y)
    } else if pointer.refuse {
        TargetStep::Cancelled
    } else {
        TargetStep::Pending
    }
}

/// Object `index` is an enemy that stands at `(x, y)`: it can fight and is
/// not the player.
pub open spec fn enemy_at(objects: Seq<Object>, x: int, y: int, index: int) -> bool {
    &&& 0 <= index < objects.len()
    &&& index != PLAYER
    &&& objects[index].fighter is Some
    &&& objects[index].at(x, y)
}

/// Object `index` is the first enemy that stands at `(x, y)`.
pub open spec fn leading_enemy_at(objects: Seq<Object>, x: int, y: int, index: int) -> bool {
    enemy_at(objects, x, y, index) && forall|j: int| 0 <= j < index ==> !enemy_at(objects, x, y, j)
}

/// Index of the first enemy that stands at `(x, y)`.
pub open spec fn first_enemy_at(objects: Seq<Object>, x: int, y: int) -> Option<int> {
    if exists|i: int| leading_enemy_at(objects, x, y, i) {
        Some(choose|i: int| leading_enemy_at(objects, x, y, i))
    } else {
        None
    }
}

/// Finds the enemy on the tile that was chosen: the first object there
/// that can fight and is not the player. Where there is none the player is
/// asked again.
pub fn monster_at(objects: &[Object], x: i32, y: i32) -> (found: Option<usize>)
    ensures
        match found {
            Some(i) => enemy_at(objects@, x as int, y as int, i as int) && first_enemy_at(
                objects@,
                x as int,
                y as int,
            ) == Some(i as int),
            None => first_enemy_at(objects@, x as int, y as int).is_none() && forall|j: int|
                !enemy_at(objects@, x as int, y as int, j),
        },
{
    let mut i: usize = 0;
    while i < objects.len()
        invariant
            i <= objects@.len(),
            forall|j: int| 0 <= j < i ==> !enemy_at(objects@, x as int, y as int, j),
        decreases objects@.len() - i,
    {
        if objects[i].x == x && objects[i].y == y && objects[i].fighter.is_some() && i != PLAYER {
            assert(leading_enemy_at(objects@, x as int, y as int, i as int));
            return Some(i);
        }
        i = i + 1;
    }
    None
}

/// The names of the objects that stand at `(x, y)` in the player's field of
/// view, in the order of the objects.
pub open spec fn names_shown(objects: Seq<Object>, fov: &FovMap, x: int, y: int) -> Seq<Seq<char>>
    decreases objects.len(),
{
    if objects.len() == 0 {
        Seq::empty()
    } else {
        let rest = names_shown(objects.drop_last(), fov, x, y);
        let o = objects.last();
        if o.at(x, y) && fov.visible(x, y) {
            rest.push(o.name@)
        } else {
            rest
        }
    }
}

/// The names in one line, with a comma and a space between one name and
/// the next.
pub open spec fn comma_joined(names: Seq<Seq<char>>) -> Seq<char>
    decreases names.len(),
{
    if names.len() == 0 {
        Seq::empty()
    } else if names.len() == 1 {
        names[0]
    } else {
        comma_joined(names.drop_last()) + ", "@ + names.last()
    }
}

/// Names what the pointer is on.
pub fn names_at(x: i32, y: i32, objects: &[Object], fov: &FovMap) -> (names: String)
    ensures
        names@ == comma_joined(names_shown(objects@, fov, x as int, y as int)),
{
    let mut names = String::new();
    let mut first = true;
    let mut i: usize = 0;
    assert(objects@.subrange(0, 0) =~= Seq::<Object>::empty());
    while i < objects.len()
        invariant
            i <= objects@.len(),
            names@ == comma_joined(
                names_shown(objects@.subrange(0, i as int), fov, x as int, y as int),
            ),
            first == (names_shown(objects@.subrange(0, i as int), fov, x as int, y as int).len()
                == 0),
        decreases objects@.len() - i,
    {
        assert(objects@.subrange(0, i + 1).drop_last() =~= objects@.subrange(0, i as int));
        let ghost shown = names_shown(objects@.subrange(0, i as int), fov, x as int, y as int);
        if objects[i].x == x && objects[i].y == y && fov.is_in_fov(objects[i].x, objects[i].y) {
            let ghost longer = shown.push(objects@[i as int].name@);
            assert(longer.drop_last() =~= shown);
            if first {
                names.append(objects[i].name.as_str());
                assert(names@ =~= objects@[i as int].name@);
                first = false;
            } else {
                names.append(", ");
                names.append(objects[i].name.as_str());
            }
        }
        i = i + 1;
    }
    assert(objects@.subrange(0, i as int) =~= objects@);
    names
}

/// What the level-up menu says of raising the hit points.
pub open spec fn constitution_text(f: Fighter) -> Seq<char> {
    "Constitution (+20 HP, from "@ + decimal(f.base_max_hp as int) + ")"@
}

/// What the level-up menu says of raising the attack.
pub open spec fn strength_text(f: Fighter) -> Seq<char> {
    "Strength (+1 attack, from "@ + decimal(f.base_power as int) + ")"@
}

/// What the level-up menu says of raising the defense.
pub open spec fn agility_text(f: Fighter) -> Seq<char> {
    "Agility (+1 defense, from "@ + decimal(f.base_defense as int) + ")"@
}

/// The options of the level-up menu, in the order of `level_up_choice`.
pub fn level_up_options(f: &Fighter) -> (options: Vec<String>)
    ensures
        options@.len() == 3,
        options@[0]@ == constitution_text(*f),
        options@[1]@ == strength_text(*f),
        options@[2]@ == agility_text(*f),
{
    let mut constitution = String::from_str("Constitution (+20 HP, from ");
    append_decimal(&mut constitution, f.base_max_hp as i64);
    constitution.append(")");
    let mut strength = String::from_str("Strength (+1 attack, from ");
    append_decimal(&mut strength, f.base_power as i64);
    strength.append(")");
    let mut agility = String::from_str("Agility (+1 defense, from ");
    append_decimal(&mut agility, f.base_defense as i64);
    agility.append(")");
    let mut options: Vec<String> = Vec::new();
    options.push(constitution);
    options.push(strength);
    options.push(agility);
    options
}

/// The statistic that a selection in the level-up menu stands for. A
/// selection of anything else, or of nothing, is none: the menu has to be
/// shown again.
pub fn level_up_choice(selected: Option<usize>) -> (choice: Option<LevelUpChoice>)
    ensures
        choice == match selected {
            Some(index) => if index == 0 {
                Some(LevelUpChoice::Constitution)
            } else if index == 1 {
                Some(LevelUpChoice::Strength)
            } else if index == 2 {
                Some(LevelUpChoice::Agility)
            } else {
                None
            },
            None => None::<LevelUpChoice>,
        },
{
    match selected {
        Some(index) => if index == 0 {
            Some(LevelUpChoice::Constitution)
        } else if index == 1 {
            Some(LevelUpChoice::Strength)
        } else if index == 2 {
            Some(LevelUpChoice::Agility)
        } else {
            None
        },
        None => None,
    }
}

} // verus!
