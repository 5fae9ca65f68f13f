use vstd::prelude::*;
use vstd::string::*;
use crate::text::{append_decimal, decimal};

verus! {

/// What the log says when the player dies.
pub const YOU_DIED: &'static str = "You died!";

/// What the log says when the use of an item is called off.
pub const CANCELLED: &'static str = "Cancelled";

/// What the log says when a potion is drunk at full health.
pub const FULL_HEALTH: &'static str = "You are already at full health.";

/// What the log says when the player is healed.
pub const WOUNDS_BETTER: &'static str = "Your wounds start to feel better!";

/// What the log says when a scroll finds no enemy.
pub const NO_ENEMY: &'static str = "No enemy is close enough to strike.";

/// How the log asks for the enemy to confuse.
pub const CONFUSE_PROMPT: &'static str = "Left-click an enemy to confuse it, or right click to cancel.";

/// How the log asks for the tile to throw a fireball at.
pub const FIREBALL_PROMPT: &'static str = "Left-click a target tile for the fireball, or right-click to cancel.";

/// The first line of the log of a new game.
pub const WELCOME: &'static str = "Welcome stranger! Prepare to perish in the Tombs of the Ancient Kings.";

/// What the log says when the player rests on the stairs.
pub const REST: &'static str = "You take a moment to rest and recover your strength.";

/// What the log says when the player goes down.
pub const DESCEND: &'static str = "After a rare moment of peace, you descend deeper into the heart of the dungeon...";

/// What the inventory menu says when there is nothing to choose from.
pub const INVENTORY_EMPTY: &'static str = "Inventory is empty.";

/// What the log says when an attack lands.
pub open spec fn attack_text(attacker: Seq<char>, target: Seq<char>, damage: int) -> Seq<char> {
    attacker + " attacks "@ + target + " for "@ + decimal(damage) + " hit points."@
}

/// Writes the text `attack_text` describes.
pub fn attack_message(attacker: &str, target: &str, damage: i64) -> (s: String)
    ensures
        s@ == attack_text(attacker@, target@, damage as int),
{
    let mut s = String::from_str(attacker);
    s.append(" attacks ");
    s.append(target);
    s.append(" for ");
    append_decimal(&mut s, damage);
    s.append(" hit points.");
    s
}

/// What the log says when an attack does no damage.
pub open spec fn no_effect_text(attacker: Seq<char>, target: Seq<char>) -> Seq<char> {
    attacker + " attacks "@ + target + " but it has no effect!"@
}

/// Writes the text `no_effect_text` describes.
pub fn no_effect_message(attacker: &str, target: &str) -> (s: String)
    ensures
        s@ == no_effect_text(attacker@, target@),
{
    let mut s = String::from_str(attacker);
    s.append(" attacks ");
    s.append(target);
    s.append(" but it has no effect!");
    s
}

/// What the log says when a monster dies.
pub open spec fn monster_death_text(name: Seq<char>, xp: int) -> Seq<char> {
    name + " is dead! You gain "@ + decimal(xp) + " experience points."@
}

/// Writes the text `monster_death_text` describes.
pub fn monster_death_message(name: &str, xp: i64) -> (s: String)
    ensures
        s@ == monster_death_text(name@, xp as int),
{
    let mut s = String::from_str(name);
    s.append(" is dead! You gain ");
    append_decimal(&mut s, xp);
    s.append(" experience points.");
    s
}

/// The name of what is left of a dead monster.
pub open spec fn remains_text(name: Seq<char>) -> Seq<char> {
    "remains of "@ + name
}

/// Writes the text `remains_text` describes.
pub fn remains_message(name: &str) -> (s: String)
    ensures
        s@ == remains_text(name@),
{
    let mut s = String::from_str("remains of ");
    s.append(name);
    s
}

/// What the log says when an item is put on.
pub open spec fn equipped_text(name: Seq<char>, slot: Seq<char>) -> Seq<char> {
    "Equipped "@ + name + " on "@ + slot + "."@
}

/// Writes the text `equipped_text` describes.
pub fn equipped_message(name: &str, slot: &str) -> (s: String)
    ensures
        s@ == equipped_text(name@, slot@),
{
    let mut s = String::from_str("Equipped ");
    s.append(name);
    s.append(" on ");
    s.append(slot);
    s.append(".");
    s
}

/// What the log says when an item is taken off.
pub open spec fn dequipped_text(name: Seq<char>, slot: Seq<char>) -> Seq<char> {
    "Dequipped "@ + name + " from "@ + slot + "."@
}

/// Writes the text `dequipped_text` describes.
pub fn dequipped_message(name: &str, slot: &str) -> (s: String)
    ensures
        s@ == dequipped_text(name@, slot@),
{
    let mut s = String::from_str("Dequipped ");
    s.append(name);
    s.append(" from ");
    s.append(slot);
    s.append(".");
    s
}

/// What the log says when something that is no item is to be put on.
pub open spec fn equip_not_item_text(name: Seq<char>) -> Seq<char> {
    "Can't equip "@ + name + " because it's not an Item."@
}

/// Writes the text `equip_not_item_text` describes.
pub fn equip_not_item_message(name: &str) -> (s: String)
    ensures
        s@ == equip_not_item_text(name@),
{
    let mut s = String::from_str("Can't equip ");
    s.append(name);
    s.append(" because it's not an Item.");
    s
}

/// What the log says when an item that cannot be worn is to be put on.
pub open spec fn equip_not_equipment_text(name: Seq<char>) -> Seq<char> {
    "Can't equip "@ + name + " because it's not an Equipment."@
}

/// Writes the text `equip_not_equipment_text` describes.
pub fn equip_not_equipment_message(name: &str) -> (s: String)
    ensures
        s@ == equip_not_equipment_text(name@),
{
    let mut s = String::from_str("Can't equip ");
    s.append(name);
    s.append(" because it's not an Equipment.");
    s
}

/// What the log says when something that is no item is to be taken off.
pub open spec fn dequip_not_item_text(name: Seq<char>) -> Seq<char> {
    "Can't dequip "@ + name + " because it's not an Item."@
}

/// Writes the text `dequip_not_item_text` describes.
pub fn dequip_not_item_message(name: &str) -> (s: String)
    ensures
        s@ == dequip_not_item_text(name@),
{
    let mut s = String::from_str("Can't dequip ");
    s.append(name);
    s.append(" because it's not an Item.");
    s
}

/// What the log says when an item that cannot be worn is to be taken off.
pub open spec fn dequip_not_equipment_text(name: Seq<char>) -> Seq<char> {
    "Can't dequip "@ + name + " because it's not an Equipment."@
}

/// Writes the text `dequip_not_equipment_text` describes.
pub fn dequip_not_equipment_message(name: &str) -> (s: String)
    ensures
        s@ == dequip_not_equipment_text(name@),
{
    let mut s = String::from_str("Can't dequip ");
    s.append(name);
    s.append(" because it's not an Equipment.");
    s
}

/// What the log says when an item is refused for want of room.
pub open spec fn inventory_full_text(name: Seq<char>) -> Seq<char> {
    "Your inventory is full, cannot pick up "@ + name + "."@
}

/// Writes the text `inventory_full_text` describes.
pub fn inventory_full_message(name: &str) -> (s: String)
    ensures
        s@ == inventory_full_text(name@),
{
    let mut s = String::from_str("Your inventory is full, cannot pick up ");
    s.append(name);
    s.append(".");
    s
}

/// What the log says when an item is picked up.
pub open spec fn picked_up_text(name: Seq<char>) -> Seq<char> {
    "You picked up a "@ + name + "!"@
}

/// Writes the text `picked_up_text` describes.
pub fn picked_up_message(name: &str) -> (s: String)
    ensures
        s@ == picked_up_text(name@),
{
    let mut s = String::from_str("You picked up a ");
    s.append(name);
    s.append("!");
    s
}

/// What the log says when something without a use is used.
pub open spec fn cannot_use_text(name: Seq<char>) -> Seq<char> {
    "The "@ + name + " cannot be used."@
}

/// Writes the text `cannot_use_text` describes.
pub fn cannot_use_message(name: &str) -> (s: String)
    ensures
        s@ == cannot_use_text(name@),
{
    let mut s = String::from_str("The ");
    s.append(name);
    s.append(" cannot be used.");
    s
}

/// What the log says when an item is dropped.
pub open spec fn dropped_text(name: Seq<char>) -> Seq<char> {
    "You dropped a "@ + name + "."@
}

/// Writes the text `dropped_text` describes.
pub fn dropped_message(name: &str) -> (s: String)
    ensures
        s@ == dropped_text(name@),
{
    let mut s = String::from_str("You dropped a ");
    s.append(name);
    s.append(".");
    s
}

/// What the log says when the player reaches a new level.
pub open spec fn level_up_text(level: int) -> Seq<char> {
    "Your battle skills grow stronger! You reached level "@ + decimal(level) + "!"@
}

/// Writes the text `level_up_text` describes.
pub fn level_up_message(level: i64) -> (s: String)
    ensures
        s@ == level_up_text(level as int),
{
    let mut s = String::from_str("Your battle skills grow stronger! You reached level ");
    append_decimal(&mut s, level);
    s.append("!");
    s
}

/// What the log says while a monster stumbles about.
pub open spec fn still_confused_text(name: Seq<char>) -> Seq<char> {
    "The "@ + name + " stumbles around in confusion."@
}

/// Writes the text `still_confused_text` describes.
pub fn still_confused_message(name: &str) -> (s: String)
    ensures
        s@ == still_confused_text(name@),
{
    let mut s = String::from_str("The ");
    s.append(name);
    s.append(" stumbles around in confusion.");
    s
}

/// What the log says when a monster comes to its senses.
pub open spec fn no_longer_confused_text(name: Seq<char>) -> Seq<char> {
    "The "@ + name + " is no longer confused!"@
}

/// Writes the text `no_longer_confused_text` describes.
pub fn no_longer_confused_message(name: &str) -> (s: String)
    ensures
        s@ == no_longer_confused_text(name@),
{
    let mut s = String::from_str("The ");
    s.append(name);
    s.append(" is no longer confused!");
    s
}

/// What the log says when lightning strikes.
pub open spec fn lightning_text(name: Seq<char>, damage: int) -> Seq<char> {
    "A lightning bolt strikes the "@ + name + " with a loud BOOM! The damage is "@ + decimal(damage) + " hit points."@
}

/// Writes the text `lightning_text` describes.
pub fn lightning_message(name: &str, damage: i64) -> (s: String)
    ensures
        s@ == lightning_text(name@, damage as int),
{
    let mut s = String::from_str("A lightning bolt strikes the ");
    s.append(name);
    s.append(" with a loud BOOM! The damage is ");
    append_decimal(&mut s, damage);
    s.append(" hit points.");
    s
}

/// What the log says when a monster is confused.
pub open spec fn confused_text(name: Seq<char>) -> Seq<char> {
    "The eyes of the "@ + name + " look vacant, as it starts to stumble around!"@
}

/// Writes the text `confused_text` describes.
pub fn confused_message(name: &str) -> (s: String)
    ensures
        s@ == confused_text(name@),
{
    let mut s = String::from_str("The eyes of the ");
    s.append(name);
    s.append(" look vacant, as it starts to stumble around!");
    s
}

/// What the log says when a fireball goes off.
pub open spec fn fireball_text(radius: int) -> Seq<char> {
    "The fireball explodes, burning everything within "@ + decimal(radius) + " tiles!"@
}

/// Writes the text `fireball_text` describes.
pub fn fireball_message(radius: i64) -> (s: String)
    ensures
        s@ == fireball_text(radius as int),
{
    let mut s = String::from_str("The fireball explodes, burning everything within ");
    append_decimal(&mut s, radius);
    s.append(" tiles!");
    s
}

/// What the log says for each victim of a fireball.
pub open spec fn burned_text(name: Seq<char>, damage: int) -> Seq<char> {
    "The "@ + name + " gets burned for "@ + decimal(damage) + " hit points."@
}

/// Writes the text `burned_text` describes.
pub fn burned_message(name: &str, damage: i64) -> (s: String)
    ensures
        s@ == burned_text(name@, damage as int),
{
    let mut s = String::from_str("The ");
    s.append(name);
    s.append(" gets burned for ");
    append_decimal(&mut s, damage);
    s.append(" hit points.");
    s
}

/// How the inventory lists an item that is worn.
pub open spec fn worn_item_text(name: Seq<char>, slot: Seq<char>) -> Seq<char> {
    name + " (on "@ + slot + ")"@
}

/// Writes the text `worn_item_text` describes.
pub fn worn_item_message(name: &str, slot: &str) -> (s: String)
    ensures
        s@ == worn_item_text(name@, slot@),
{
    let mut s = String::from_str(name);
    s.append(" (on ");
    s.append(slot);
    s.append(")");
    s
}

/// A menu line: the option's letter in brackets, then its text.
pub open spec fn menu_line_text(letter: Seq<char>, option: Seq<char>) -> Seq<char> {
    "("@ + letter + ") "@ + option
}

/// Writes the text `menu_line_text` describes.
pub fn menu_line_message(letter: &str, option: &str) -> (s: String)
    ensures
        s@ == menu_line_text(letter@, option@),
{
    let mut s = String::from_str("(");
    s.append(letter);
    s.append(") ");
    s.append(option);
    s
}

} // verus!
