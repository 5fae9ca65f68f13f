use vstd::prelude::*;
use vstd::string::*;
use crate::colors::{
    darker_green, darker_orange, darkest_orange, desaturated_green, light_yellow, sky, violet,
    white, Color,
};
use crate::entity::{
    Ai, DeathCallback, Emitter, Equipment, Fighter, Item, Object, Slot, Transition,
};
use crate::helper::{from_dungeon_level, table_value};
use crate::rng::total_weight;

verus! {

/// The monsters that live in the dungeon.
#[derive(Clone, Copy, Debug, PartialEq, Eq, Structural)]
pub enum MonsterKind {
    Orc,
    Troll,
}

/// At most this many monsters are put into a room, by dungeon level.
pub open spec fn max_monsters_table() -> Seq<Transition> {
    seq![
        Transition { level: 1, value: 2 },
        Transition { level: 4, value: 3 },
        Transition { level: 6, value: 5 },
    ]
}

/// At most this many items are put into a room, by dungeon level.
pub open spec fn max_items_table() -> Seq<Transition> {
    seq![Transition { level: 1, value: 1 }, Transition { level: 4, value: 2 }]
}

/// Weight of the troll among the monsters, by dungeon level.
pub open spec fn troll_table() -> Seq<Transition> {
    seq![
        Transition { level: 3, value: 15 },
        Transition { level: 5, value: 30 },
        Transition { level: 7, value: 60 },
    ]
}

/// Weight of a kind of monster at a dungeon level.
pub open spec fn monster_chance(kind: MonsterKind, level: u32) -> u32 {
    match kind {
        MonsterKind::Orc => 80,
        MonsterKind::Troll => table_value(troll_table(), level),
    }
}

/// Weight of a kind of item at a dungeon level. The healing potion is
/// always to be had; everything else turns up from some depth on.
pub open spec fn item_chance(item: Item, level: u32) -> u32 {
    match item {
        Item::Heal => 35,
        Item::Lightning => table_value(seq![Transition { level: 4, value: 25 }], level),
        Item::Fireball => table_value(seq![Transition { level: 6, value: 25 }], level),
        Item::Confuse => table_value(seq![Transition { level: 2, value: 10 }], level),
        Item::Sword => table_value(seq![Transition { level: 4, value: 5 }], level),
        Item::Shield => table_value(seq![Transition { level: 8, value: 15 }], level),
    }
}

/// The monsters in the order of their weights in `monster_chances`.
pub open spec fn monster_order() -> Seq<MonsterKind> {
    seq![MonsterKind::Orc, MonsterKind::Troll]
}

/// The items in the order of their weights in `item_chances`.
pub open spec fn item_order() -> Seq<Item> {
    seq![Item::Heal, Item::Lightning, Item::Fireball, Item::Confuse, Item::Sword, Item::Shield]
}

/// A table of one entry has its value from the entry's level on.
pub proof fn lemma_table_of_one(a: Transition, level: u32)
    ensures
        table_value(seq![a], level) == if level >= a.level {
            a.value
        } else {
            0
        },
{
    reveal_with_fuel(table_value, 2);
    assert(seq![a].drop_last() =~= Seq::<Transition>::empty());
}

/// A table of two entries steps at the levels of its entries.
pub proof fn lemma_table_of_two(a: Transition, b: Transition, level: u32)
    ensures
        table_value(seq![a, b], level) == if level >= b.level {
            b.value
        } else if level >= a.level {
            a.value
        } else {
            0
        },
{
    reveal_with_fuel(table_value, 2);
    assert(seq![a, b].drop_last() =~= seq![a]);
    lemma_table_of_one(a, level);
}

/// A table of three entries steps at the levels of its entries.
pub proof fn lemma_table_of_three(a: Transition, b: Transition, c: Transition, level: u32)
    ensures
        table_value(seq![a, b, c], level) == if level >= c.level {
            c.value
        } else if level >= b.level {
            b.value
        } else if level >= a.level {
            a.value
        } else {
            0
        },
{
    reveal_with_fuel(table_value, 2);
    assert(seq![a, b, c].drop_last() =~= seq![a, b]);
    lemma_table_of_two(a, b, level);
}

/// No room gets more than five monsters and two items, at any depth.
pub proof fn lemma_room_capacity(level: u32)
    ensures
        table_value(max_monsters_table(), level) <= 5,
        table_value(max_items_table(), level) <= 2,
{
    lemma_table_of_three(
        max_monsters_table()[0],
        max_monsters_table()[1],
        max_monsters_table()[2],
        level,
    );
    assert(max_monsters_table() =~= seq![
        max_monsters_table()[0],
        max_monsters_table()[1],
        max_monsters_table()[2],
    ]);
    lemma_table_of_two(max_items_table()[0], max_items_table()[1], level);
    assert(max_items_table() =~= seq![max_items_table()[0], max_items_table()[1]]);
}

/// Most monsters a room gets at a dungeon level.
pub fn max_monsters(level: u32) -> (n: u32)
    ensures
        n == table_value(max_monsters_table(), level),
        n <= 5,
{
    let table = vec![
        Transition { level: 1, value: 2 },
        Transition { level: 4, value: 3 },
        Transition { level: 6, value: 5 },
    ];
    assert(table@ =~= max_monsters_table());
    proof {
        lemma_table_of_three(table@[0], table@[1], table@[2], level);
    }
    from_dungeon_level(table.as_slice(), level)
}

/// Most items a room gets at a dungeon level.
pub fn max_items(level: u32) -> (n: u32)
    ensures
        n == table_value(max_items_table(), level),
        n <= 2,
{
    let table = vec![Transition { level: 1, value: 1 }, Transition { level: 4, value: 2 }];
    assert(table@ =~= max_items_table());
    proof {
        lemma_table_of_two(table@[0], table@[1], level);
    }
    from_dungeon_level(table.as_slice(), level)
}

fn one_step(from: u32, value: u32, level: u32) -> (n: u32)
    ensures
        n == table_value(seq![Transition { level: from, value: value }], level),
        n == 0 || n == value,
{
    let table = vec![Transition { level: from, value: value }];
    assert(table@ =~= seq![Transition { level: from, value: value }]);
    proof {
        lemma_table_of_one(table@[0], level);
    }
    from_dungeon_level(table.as_slice(), level)
}

fn push_weight(weights: &mut Vec<u32>, weight: u32)
    ensures
        final(weights)@ == old(weights)@.push(weight),
        total_weight(final(weights)@) == total_weight(old(weights)@) + weight,
{
    weights.push(weight);
    assert(weights@.drop_last() =~= old(weights)@);
}

/// The weights of the monsters at a dungeon level, one per kind in the
/// order of `monster_order`.
pub fn monster_chances(level: u32) -> (weights: Vec<u32>)
    ensures
        weights@.len() == monster_order().len(),
        forall|i: int|
            0 <= i < weights@.len() ==> #[trigger] weights@[i] == monster_chance(
                monster_order()[i],
                level,
            ),
        80 <= total_weight(weights@) <= 140,
{
    let table = vec![
        Transition { level: 3, value: 15 },
        Transition { level: 5, value: 30 },
        Transition { level: 7, value: 60 },
    ];
    assert(table@ =~= troll_table());
    proof {
        lemma_table_of_three(table@[0], table@[1], table@[2], level);
    }
    let troll_chance: u32 = from_dungeon_level(table.as_slice(), level);
    let mut weights: Vec<u32> = Vec::new();
    assert(total_weight(weights@) == 0);
    push_weight(&mut weights, 80);
    push_weight(&mut weights, troll_chance);
    weights
}

/// The weights of the items at a dungeon level, one per item in the order
/// of `item_order`.
pub fn item_chances(level: u32) -> (weights: Vec<u32>)
    ensures
        weights@.len() == item_order().len(),
        forall|i: int|
            0 <= i < weights@.len() ==> #[trigger] weights@[i] == item_chance(item_order()[i], level),
        35 <= total_weight(weights@) <= 115,
{
    let mut weights: Vec<u32> = Vec::new();
    assert(total_weight(weights@) == 0);
    push_weight(&mut weights, 35);
    push_weight(&mut weights, one_step(4, 25, level));
    push_weight(&mut weights, one_step(6, 25, level));
    push_weight(&mut weights, one_step(2, 10, level));
    push_weight(&mut weights, one_step(4, 5, level));
    push_weight(&mut weights, one_step(8, 15, level));
    weights
}

/// The kind of monster that stands at `index` in `monster_order`.
pub fn monster_at_index(index: usize) -> (kind: MonsterKind)
    requires
        index < monster_order().len(),
    ensures
        kind == monster_order()[index as int],
{
    if index == 0 {
        MonsterKind::Orc
    } else {
        MonsterKind::Troll
    }
}

/// The item that stands at `index` in `item_order`.
pub fn item_at_index(index: usize) -> (item: Item)
    requires
        index < item_order().len(),
    ensures
        item == item_order()[index as int],
{
    if index == 0 {
        Item::Heal
    } else if index == 1 {
        Item::Lightning
    } else if index == 2 {
        Item::Fireball
    } else if index == 3 {
        Item::Confuse
    } else if index == 4 {
        Item::Sword
    } else {
        Item::Shield
    }
}

impl MonsterKind {
    /// What a monster of this kind is called.
    pub open spec fn label(self) -> Seq<char> {
        match self {
            MonsterKind::Orc => "orc"@,
            MonsterKind::Troll => "troll"@,
        }
    }

    /// The character a monster of this kind is drawn as.
    pub open spec fn glyph(self) -> char {
        match self {
            MonsterKind::Orc => 'o',
            MonsterKind::Troll => 'T',
        }
    }

    /// The colour a monster of this kind is drawn in.
    pub open spec fn color(self) -> Color {
        match self {
            MonsterKind::Orc => desaturated_green(),
            MonsterKind::Troll => darker_green(),
        }
    }

    /// The statistics a monster of this kind starts with.
    pub open spec fn fighter(self) -> Fighter {
        match self {
            MonsterKind::Orc => Fighter {
                base_max_hp: 20,
                hp: 20,
                base_defense: 0,
                base_power: 4,
                xp: 35,
                on_death: DeathCallback::Monster,
            },
            MonsterKind::Troll => Fighter {
                base_max_hp: 30,
                hp: 30,
                base_defense: 2,
                base_power: 8,
                xp: 100,
                on_death: DeathCallback::Monster,
            },
        }
    }
}

/// `o` is a fresh monster of the given kind at `(x, y)`: alive, blocking,
/// and hunting the player.
pub open spec fn is_monster(o: Object, kind: MonsterKind, x: i32, y: i32) -> bool {
    &&& o.name@ == kind.label()
    &&& o == (Object {
        x: x,
        y: y,
        glyph: kind.glyph(),
        color: kind.color(),
        name: o.name,
        blocks: true,
        alive: true,
        fighter: Some(kind.fighter()),
        ai: Some(Ai::Basic),
        item: None,
        equipment: None,
        emitter: None,
        always_visible: false,
        level: 1,
        fov_radius: 0,
    })
}

/// A fresh monster.
pub fn make_monster(kind: MonsterKind, x: i32, y: i32) -> (o: Object)
    ensures
        is_monster(o, kind, x, y),
{
    match kind {
        MonsterKind::Orc => {
            let mut orc = Object::new(x, y, 'o', "orc", desaturated_green(), true);
            orc.fighter = Some(
                Fighter {
                    base_max_hp: 20,
                    hp: 20,
                    base_defense: 0,
                    base_power: 4,
                    xp: 35,
                    on_death: DeathCallback::Monster,
                },
            );
            orc.ai = Some(Ai::Basic);
            orc.alive = true;
            orc
        },
        MonsterKind::Troll => {
            let mut troll = Object::new(x, y, 'T', "troll", darker_green(), true);
            troll.fighter = Some(
                Fighter {
                    base_max_hp: 30,
                    hp: 30,
                    base_defense: 2,
                    base_power: 8,
                    xp: 100,
                    on_death: DeathCallback::Monster,
                },
            );
            troll.ai = Some(Ai::Basic);
            troll.alive = true;
            troll
        },
    }
}

impl Item {
    /// The name of the object that carries this item.
    pub open spec fn label(self) -> Seq<char> {
        match self {
            Item::Heal => "healing potion"@,
            Item::Lightning => "scroll of lightning bolt"@,
            Item::Fireball => "scroll of fireball"@,
            Item::Confuse => "scroll of confuse"@,
            Item::Sword => "sword"@,
            Item::Shield => "shield"@,
        }
    }

    /// The character the item is drawn as.
    pub open spec fn glyph(self) -> char {
        match self {
            Item::Heal => '!',
            Item::Lightning => '#',
            Item::Fireball => '#',
            Item::Confuse => '#',
            Item::Sword => '/',
            Item::Shield => '[',
        }
    }

    /// The colour the item is drawn in.
    pub open spec fn color(self) -> Color {
        match self {
            Item::Heal => violet(),
            Item::Lightning => light_yellow(),
            Item::Fireball => light_yellow(),
            Item::Confuse => light_yellow(),
            Item::Sword => sky(),
            Item::Shield => darker_orange(),
        }
    }

    /// What the item is as equipment, when it is found on the floor.
    pub open spec fn equipment(self) -> Option<Equipment> {
        match self {
            Item::Sword => Some(
                Equipment {
                    equipped: false,
                    slot: Slot::RightHand,
                    max_hp_bonus: 0,
                    power_bonus: 3,
                    defense_bonus: 0,
                },
            ),
            Item::Shield => Some(
                Equipment {
                    equipped: false,
                    slot: Slot::LeftHand,
                    max_hp_bonus: 0,
                    power_bonus: 0,
                    defense_bonus: 1,
                },
            ),
            _ => None,
        }
    }
}

/// `o` is the given item as it lies on the floor at `(x, y)`.
pub open spec fn is_item_object(o: Object, item: Item, x: i32, y: i32) -> bool {
    &&& o.name@ == item.label()
    &&& o == (Object {
        x: x,
        y: y,
        glyph: item.glyph(),
        color: item.color(),
        name: o.name,
        blocks: false,
        alive: false,
        fighter: None,
        ai: None,
        item: Some(item),
        equipment: item.equipment(),
        emitter: None,
        always_visible: true,
        level: 1,
        fov_radius: 0,
    })
}

/// An item to be found on the floor.
pub fn make_item(item: Item, x: i32, y: i32) -> (o: Object)
    ensures
        is_item_object(o, item, x, y),
{
    let mut object = match item {
        Item::Heal => Object::new(x, y, '!', "healing potion", violet(), false),
        Item::Lightning => Object::new(x, y, '#', "scroll of lightning bolt", light_yellow(), false),
        Item::Fireball => Object::new(x, y, '#', "scroll of fireball", light_yellow(), false),
        Item::Confuse => Object::new(x, y, '#', "scroll of confuse", light_yellow(), false),
        Item::Sword => {
            let mut sword = Object::new(x, y, '/', "sword", sky(), false);
            sword.equipment = Some(
                Equipment {
                    equipped: false,
                    slot: Slot::RightHand,
                    max_hp_bonus: 0,
                    power_bonus: 3,
                    defense_bonus: 0,
                },
            );
            sword
        },
        Item::Shield => {
            let mut shield = Object::new(x, y, '[', "shield", darker_orange(), false);
            shield.equipment = Some(
                Equipment {
                    equipped: false,
                    slot: Slot::LeftHand,
                    max_hp_bonus: 0,
                    power_bonus: 0,
                    defense_bonus: 1,
                },
            );
            shield
        },
    };
    object.item = Some(item);
    object.always_visible = true;
    object
}

/// `o` is a torch on the floor at `(x, y)`.
pub open spec fn is_torch(o: Object, x: i32, y: i32) -> bool {
    &&& o.name@ == "torch"@
    &&& o == (Object {
        x: x,
        y: y,
        glyph: 'i',
        color: darkest_orange(),
        name: o.name,
        blocks: false,
        alive: false,
        fighter: None,
        ai: None,
        item: None,
        equipment: None,
        emitter: Some(Emitter { radius: 2, color: darkest_orange() }),
        always_visible: true,
        level: 1,
        fov_radius: 0,
    })
}

/// A torch: it lights the tiles within two steps.
pub fn make_torch(x: i32, y: i32) -> (o: Object)
    ensures
        is_torch(o, x, y),
{
    let mut torch = Object::new(x, y, 'i', "torch", darkest_orange(), false);
    torch.emitter = Some(Emitter { radius: 2, color: darkest_orange() });
    torch.always_visible = true;
    torch
}

/// `o` is the stairway down, at `(x, y)`.
pub open spec fn is_stairs(o: Object, x: i32, y: i32) -> bool {
    &&& o.name@ == "stairs"@
    &&& o == (Object {
        x: x,
        y: y,
        glyph: '<',
        color: white(),
        name: o.name,
        blocks: false,
        alive: false,
        fighter: None,
        ai: None,
        item: None,
        equipment: None,
        emitter: None,
        always_visible: true,
        level: 1,
        fov_radius: 0,
    })
}

/// The stairway down.
pub fn make_stairs(x: i32, y: i32) -> (o: Object)
    ensures
        is_stairs(o, x, y),
{
    let mut stairs = Object::new(x, y, '<', "stairs", white(), false);
    stairs.always_visible = true;
    stairs
}

/// `o` is a fresh monster of a kind whose weight at dungeon level `level`
/// is not zero.
pub open spec fn is_level_monster(o: Object, level: u32) -> bool {
    exists|kind: MonsterKind|
        monster_chance(kind, level) > 0 && #[trigger] is_monster(o, kind, o.x, o.y)
}

/// `o` is an item on the floor whose weight at dungeon level `level` is not
/// zero.
pub open spec fn is_level_item(o: Object, level: u32) -> bool {
    exists|item: Item| item_chance(item, level) > 0 && #[trigger] is_item_object(o, item, o.x, o.y)
}

/// `o` is something the generator puts into a room at dungeon level
/// `level`: a monster or an item that occurs at that level, or a torch.
pub open spec fn is_spawn(o: Object, level: u32) -> bool {
    ||| is_level_monster(o, level)
    ||| is_level_item(o, level)
    ||| is_torch(o, o.x, o.y)
}

} // verus!
