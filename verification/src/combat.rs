use vstd::prelude::*;
use vstd::string::*;
use crate::colors::{dark_red, light_green, light_yellow, orange, red, white};
use crate::entity::{DeathCallback, Equipment, Fighter, Object, STAT_LIMIT};
use crate::messages::{
    attack_message, attack_text, dequip_not_equipment_message, dequip_not_equipment_text,
    dequip_not_item_message, dequip_not_item_text, dequipped_message, dequipped_text,
    equip_not_equipment_message, equip_not_equipment_text, equip_not_item_message,
    equip_not_item_text, equipped_message, equipped_text, monster_death_message,
    monster_death_text, no_effect_message, no_effect_text, remains_message, remains_text,
    YOU_DIED,
};
use crate::session::{Game, Line, Messages, INVENTORY_CAPACITY};

verus! {

/// The three statistics that equipment can raise.
#[derive(Clone, Copy, Debug, PartialEq, Eq, Structural)]
pub enum Stat {
    MaxHp,
    Power,
    Defense,
}

impl Equipment {
    /// What this piece adds to `stat` while it is worn.
    pub open spec fn bonus(&self, stat: Stat) -> int {
        match stat {
            Stat::MaxHp => self.max_hp_bonus as int,
            Stat::Power => self.power_bonus as int,
            Stat::Defense => self.defense_bonus as int,
        }
    }

    /// What this piece adds to `stat` while it is worn.
    pub fn bonus_to(&self, stat: Stat) -> (b: i32)
        ensures
            b == self.bonus(stat),
    {
        match stat {
            Stat::MaxHp => self.max_hp_bonus,
            Stat::Power => self.power_bonus,
            Stat::Defense => self.defense_bonus,
        }
    }
}

/// What one inventory item adds to `stat`: its bonus if it is equipment
/// and is worn, nothing otherwise.
pub open spec fn item_bonus(item: Object, stat: Stat) -> int {
    match item.equipment {
        Some(e) => if e.equipped {
            e.bonus(stat)
        } else {
            0
        },
        None => 0,
    }
}

/// What the whole inventory adds to `stat`.
pub open spec fn equipped_bonus(inventory: Seq<Object>, stat: Stat) -> int
    decreases inventory.len(),
{
    if inventory.len() == 0 {
        0
    } else {
        equipped_bonus(inventory.drop_last(), stat) + item_bonus(inventory.last(), stat)
    }
}

/// The pieces of equipment that are worn, in inventory order.
pub open spec fn equipped_items(inventory: Seq<Object>) -> Seq<Equipment>
    decreases inventory.len(),
{
    if inventory.len() == 0 {
        Seq::empty()
    } else {
        let rest = equipped_items(inventory.drop_last());
        match inventory.last().equipment {
            Some(e) => if e.equipped {
                rest.push(e)
            } else {
                rest
            },
            None => rest,
        }
    }
}

/// Within the limits, the bonuses of an inventory add up to no more than
/// its length times the limit of one bonus.
pub proof fn lemma_equipped_bonus_bounded(inventory: Seq<Object>, stat: Stat)
    requires
        forall|i: int| 0 <= i < inventory.len() ==> (#[trigger] inventory[i]).in_limits(),
    ensures
        -(inventory.len() * STAT_LIMIT) <= equipped_bonus(inventory, stat) <= inventory.len()
            * STAT_LIMIT,
    decreases inventory.len(),
{
    if inventory.len() > 0 {
        let rest = inventory.drop_last();
        assert forall|i: int| 0 <= i < rest.len() implies (#[trigger] rest[i]).in_limits() by {
            assert(rest[i] == inventory[i]);
        }
        lemma_equipped_bonus_bounded(rest, stat);
        assert(inventory.last() == inventory[inventory.len() - 1]);
        assert(inventory.last().in_limits());
        assert(rest.len() * STAT_LIMIT + STAT_LIMIT == inventory.len() * STAT_LIMIT)
            by (nonlinear_arith)
            requires
                rest.len() + 1 == inventory.len(),
        ;
    }
}

/// Within the limits an effective statistic is at most 27 times the limit
/// of one of its summands: a base value and one bonus per inventory slot.
pub proof fn lemma_effective_bounded(who: Object, inventory: Seq<Object>, stat: Stat)
    requires
        who.in_limits(),
        inventory.len() <= INVENTORY_CAPACITY,
        forall|i: int| 0 <= i < inventory.len() ==> (#[trigger] inventory[i]).in_limits(),
    ensures
        -27 * STAT_LIMIT <= who.effective(inventory, stat) <= 27 * STAT_LIMIT,
{
    lemma_equipped_bonus_bounded(inventory, stat);
    assert(inventory.len() * STAT_LIMIT <= 26 * STAT_LIMIT) by (nonlinear_arith)
        requires
            inventory.len() <= 26,
    ;
}

/// Damage that leaves `hp` points: a positive amount is subtracted,
/// anything else changes nothing.
pub open spec fn hp_after(hp: int, damage: int) -> int {
    if damage > 0 {
        hp - damage
    } else {
        hp
    }
}

/// Damage dealt by an attack of strength `power` against `defense`: the
/// difference, but never less than nothing.
pub open spec fn attack_damage(power: int, defense: int) -> int {
    if power - defense > 0 {
        power - defense
    } else {
        0
    }
}

impl Object {
    /// This entity is the one the inventory belongs to: the one whose death
    /// is the player's.
    pub open spec fn owns_inventory(&self) -> bool {
        self.fighter matches Some(f) && f.on_death == DeathCallback::Player
    }

    /// The fighter's own value of `stat`, or zero without a fighter.
    pub open spec fn base_stat(&self, stat: Stat) -> int {
        match self.fighter {
            Some(f) => match stat {
                Stat::MaxHp => f.base_max_hp as int,
                Stat::Power => f.base_power as int,
                Stat::Defense => f.base_defense as int,
            },
            None => 0,
        }
    }

    /// The value of `stat` that counts in play: the base value, plus, for
    /// the owner of the inventory, the bonuses of everything worn.
    pub open spec fn effective(&self, inventory: Seq<Object>, stat: Stat) -> int {
        self.base_stat(stat) + if self.owns_inventory() {
            equipped_bonus(inventory, stat)
        } else {
            0
        }
    }

    /// The damage would kill: there is a fighter, it is alive, and the
    /// damage leaves it no hit points.
    pub open spec fn dies_from(&self, damage: int) -> bool {
        &&& self.alive
        &&& self.fighter matches Some(f)
        &&& hp_after(f.hp as int, damage) <= 0
    }

    /// `after` is this object once it has taken `damage`. A survivor only
    /// loses hit points. A dead player turns into a corpse in looks alone;
    /// a dead monster also stops blocking, fighting and acting, and is
    /// renamed to its remains.
    pub open spec fn took_damage(&self, after: Object, damage: int) -> bool {
        match self.fighter {
            None => after == *self,
            Some(f) => {
                let hurt = Fighter { hp: hp_after(f.hp as int, damage) as i32, ..f };
                if !self.dies_from(damage) {
                    after == (Object { fighter: Some(hurt), ..*self })
                } else if f.on_death == DeathCallback::Player {
                    after == (Object {
                        fighter: Some(hurt),
                        alive: false,
                        glyph: '%',
                        color: dark_red(),
                        ..*self
                    })
                } else {
                    &&& after.name@ == remains_text(self.name@)
                    &&& after == (Object {
                        name: after.name,
                        alive: false,
                        glyph: '%',
                        color: dark_red(),
                        blocks: false,
                        fighter: None,
                        ai: None,
                        ..*self
                    })
                }
            },
        }
    }

    /// What the log gains when this object takes `damage`: the notice of
    /// its death, if it dies.
    pub open spec fn death_lines(&self, damage: int) -> Seq<Line> {
        if self.dies_from(damage) {
            let f = self.fighter->0;
            if f.on_death == DeathCallback::Player {
                seq![Line { text: YOU_DIED@, color: red() }]
            } else {
                seq![Line { text: monster_death_text(self.name@, f.xp as int), color: orange() }]
            }
        } else {
            Seq::empty()
        }
    }

    fn bonus_total(&self, game: &Game, stat: Stat) -> (total: i32)
        requires
            game.inventory_in_limits(),
        ensures
            total == if self.owns_inventory() {
                equipped_bonus(game.inventory@, stat)
            } else {
                0
            },
            -(INVENTORY_CAPACITY * STAT_LIMIT) <= total <= INVENTORY_CAPACITY * STAT_LIMIT,
    {
        let owner = match self.fighter {
            Some(f) => f.on_death == DeathCallback::Player,
            None => false,
        };
        if !owner {
            return 0;
        }
        let mut total: i32 = 0;
        let mut i: usize = 0;
        while i < game.inventory.len()
            invariant
                game.inventory_in_limits(),
                i <= game.inventory@.len(),
                total == equipped_bonus(game.inventory@.subrange(0, i as int), stat),
                -(i * STAT_LIMIT) <= total <= i * STAT_LIMIT,
            decreases game.inventory@.len() - i,
        {
            assert(game.inventory@.subrange(0, i + 1).drop_last() =~= game.inventory@.subrange(
                0,
                i as int,
            ));
            assert(game.inventory@[i as int].in_limits());
            match game.inventory[i].equipment {
                Some(e) => {
                    if e.equipped {
                        total = total + e.bonus_to(stat);
                    }
                },
                None => {},
            }
            i = i + 1;
        }
        assert(game.inventory@.subrange(0, i as int) =~= game.inventory@);
        total
    }

    /// Effective attack strength.
    pub fn power(&self, game: &Game) -> (p: i32)
        requires
            self.in_limits(),
            game.inventory_in_limits(),
        ensures
            p == self.effective(game.inventory@, Stat::Power),
    {
        let base: i32 = match self.fighter {
            Some(f) => f.base_power,
            None => 0,
        };
        base + self.bonus_total(game, Stat::Power)
    }

    /// Effective defense.
    pub fn defense(&self, game: &Game) -> (d: i32)
        requires
            self.in_limits(),
            game.inventory_in_limits(),
        ensures
            d == self.effective(game.inventory@, Stat::Defense),
    {
        let base: i32 = match self.fighter {
            Some(f) => f.base_defense,
            None => 0,
        };
        base + self.bonus_total(game, Stat::Defense)
    }

    /// Effective maximum of hit points.
    pub fn max_hp(&self, game: &Game) -> (m: i32)
        requires
            self.in_limits(),
            game.inventory_in_limits(),
        ensures
            m == self.effective(game.inventory@, Stat::MaxHp),
    {
        let base: i32 = match self.fighter {
            Some(f) => f.base_max_hp,
            None => 0,
        };
        base + self.bonus_total(game, Stat::MaxHp)
    }

    /// Everything this entity wears: for the owner of the inventory the
    /// equipped pieces in inventory order, for anyone else nothing.
    pub fn get_all_equipped(&self, game: &Game) -> (worn: Vec<Equipment>)
        ensures
            worn@ == if self.owns_inventory() {
                equipped_items(game.inventory@)
            } else {
                Seq::<Equipment>::empty()
            },
    {
        let mut worn: Vec<Equipment> = Vec::new();
        let owner = match self.fighter {
            Some(f) => f.on_death == DeathCallback::Player,
            None => false,
        };
        if !owner {
            return worn;
        }
        let mut i: usize = 0;
        while i < game.inventory.len()
            invariant
                i <= game.inventory@.len(),
                worn@ == equipped_items(game.inventory@.subrange(0, i as int)),
            decreases game.inventory@.len() - i,
        {
            assert(game.inventory@.subrange(0, i + 1).drop_last() =~= game.inventory@.subrange(
                0,
                i as int,
            ));
            match game.inventory[i].equipment {
                Some(e) => {
                    if e.equipped {
                        worn.push(e);
                    }
                },
                None => {},
            }
            i = i + 1;
        }
        assert(game.inventory@.subrange(0, i as int) =~= game.inventory@);
        worn
    }

    /// The damage this entity's attack does to `target`.
    pub open spec fn damage_to(&self, target: Object, inventory: Seq<Object>) -> int {
        attack_damage(
            self.effective(inventory, Stat::Power),
            target.effective(inventory, Stat::Defense),
        )
    }

    /// The attack on `target` can be computed in machine integers: both
    /// carry numbers within the limits, and if the attack kills, the
    /// attacker is a fighter whose experience has room for the reward.
    pub open spec fn can_attack(&self, target: Object, inventory: Seq<Object>) -> bool {
        &&& self.in_limits()
        &&& target.in_limits()
        &&& target.dies_from(self.damage_to(target, inventory)) ==> self.fighter is Some
            && self.fighter->0.xp + target.fighter->0.xp <= i32::MAX
    }

    /// `attacker_after`, `target_after` and `log_after` are what an attack
    /// of this entity on `target` leaves behind. Damage is dealt and logged
    /// if there is any, and if it kills, the attacker gains the experience
    /// the target was worth; without damage only the failure is logged.
    pub open spec fn attacked(
        &self,
        target: Object,
        attacker_after: Object,
        target_after: Object,
        inventory: Seq<Object>,
        log: Seq<Line>,
        log_after: Seq<Line>,
    ) -> bool {
        let damage = self.damage_to(target, inventory);
        if damage > 0 {
            &&& target.took_damage(target_after, damage)
            &&& attacker_after == if target.dies_from(damage) {
                Object {
                    fighter: Some(
                        Fighter {
                            xp: (self.fighter->0.xp + target.fighter->0.xp) as i32,
                            ..self.fighter->0
                        },
                    ),
                    ..*self
                }
            } else {
                *self
            }
            &&& log_after == log.push(
                Line { text: attack_text(self.name@, target.name@, damage), color: white() },
            ) + target.death_lines(damage)
        } else {
            &&& target_after == target
            &&& attacker_after == *self
            &&& log_after == log.push(
                Line { text: no_effect_text(self.name@, target.name@), color: white() },
            )
        }
    }

    /// Takes `damage` hit points away if that is a positive amount. If the
    /// entity was alive and is left without hit points, it dies: it is
    /// transformed as its kind of death demands, the death is logged, and
    /// the experience it was worth is handed to the caller, who decides
    /// whom to credit.
    pub fn take_damage(&mut self, damage: i32, game: &mut Game) -> (reward: Option<i32>)
        requires
            old(self).fighter matches Some(f) ==> hp_after(f.hp as int, damage as int) >= i32::MIN,
        ensures
            old(self).took_damage(*final(self), damage as int),
            reward == if old(self).dies_from(damage as int) {
                Some(old(self).fighter->0.xp)
            } else {
                None::<i32>
            },
            final(game).log@ == old(game).log@ + old(self).death_lines(damage as int),
            final(game).map == old(game).map,
            final(game).inventory == old(game).inventory,
            final(game).dungeon_level == old(game).dungeon_level,
    {
        match self.fighter {
            Some(f) => {
                let hp: i32 = if damage > 0 {
                    f.hp - damage
                } else {
                    f.hp
                };
                self.fighter = Some(Fighter { hp: hp, ..f });
                if self.alive && hp <= 0 {
                    self.alive = false;
                    match f.on_death {
                        DeathCallback::Player => {
                            player_death(self, game);
                        },
                        DeathCallback::Monster => {
                            monster_death(self, game);
                        },
                    }
                    assert(game.log@ =~= old(game).log@ + old(self).death_lines(damage as int));
                    return Some(f.xp);
                }
                assert(game.log@ =~= old(game).log@ + old(self).death_lines(damage as int));
                None
            },
            None => {
                assert(game.log@ =~= old(game).log@ + old(self).death_lines(damage as int));
                None
            },
        }
    }

    /// Attacks `target`: the damage is this entity's effective power less
    /// the target's effective defense. Positive damage is dealt and
    /// logged, and if it kills, the target's experience is credited to the
    /// attacker; otherwise only the failure is logged.
    pub fn attack(&mut self, target: &mut Object, game: &mut Game)
        requires
            old(self).can_attack(*old(target), old(game).inventory@),
            old(game).inventory_in_limits(),
        ensures
            final(game).map == old(game).map,
            final(game).inventory == old(game).inventory,
            final(game).dungeon_level == old(game).dungeon_level,
            old(self).attacked(
                *old(target),
                *final(self),
                *final(target),
                old(game).inventory@,
                old(game).log@,
                final(game).log@,
            ),
    {
        proof {
            lemma_effective_bounded(*self, game.inventory@, Stat::Power);
            lemma_effective_bounded(*target, game.inventory@, Stat::Defense);
        }
        let damage: i32 = self.power(game) - target.defense(game);
        if damage > 0 {
            game.log.add(
                attack_message(self.name.as_str(), target.name.as_str(), damage as i64),
                white(),
            );
            match target.take_damage(damage, game) {
                Some(xp) => {
                    match self.fighter {
                        Some(f) => {
                            self.fighter = Some(Fighter { xp: f.xp + xp, ..f });
                        },
                        None => {},
                    }
                },
                None => {},
            }
        } else {
            game.log.add(no_effect_message(self.name.as_str(), target.name.as_str()), white());
        }
    }

    /// This object with `amount` hit points restored, but no more than
    /// the effective maximum allows.
    pub open spec fn healed(&self, amount: int, inventory: Seq<Object>) -> Object {
        match self.fighter {
            Some(f) => Object {
                fighter: Some(
                    Fighter {
                        hp: if f.hp + amount > self.effective(inventory, Stat::MaxHp) {
                            self.effective(inventory, Stat::MaxHp) as i32
                        } else {
                            (f.hp + amount) as i32
                        },
                        ..f
                    },
                ),
                ..*self
            },
            None => *self,
        }
    }

    /// Restores `amount` hit points, but never beyond the effective
    /// maximum.
    pub fn heal(&mut self, amount: i32, game: &Game)
        requires
            old(self).in_limits(),
            game.inventory_in_limits(),
            old(self).fighter matches Some(f) ==> i32::MIN <= f.hp + amount <= i32::MAX,
        ensures
            *final(self) == old(self).healed(amount as int, game.inventory@),
    {
        let max_hp: i32 = self.max_hp(game);
        match self.fighter {
            Some(f) => {
                let mut hp: i32 = f.hp + amount;
                if hp > max_hp {
                    hp = max_hp;
                }
                self.fighter = Some(Fighter { hp: hp, ..f });
            },
            None => {},
        }
    }

    /// This object with `xp` more experience, if it is a fighter.
    pub open spec fn credited(&self, xp: int) -> Object {
        match self.fighter {
            Some(f) => Object { fighter: Some(Fighter { xp: (f.xp + xp) as i32, ..f }), ..*self },
            None => *self,
        }
    }

    /// This object as it is once an attempt to put it on has been made:
    /// worn if it is an item that can be worn, unchanged otherwise.
    pub open spec fn put_on(&self) -> Object {
        match self.equipment {
            Some(e) => if self.item is Some {
                Object { equipment: Some(Equipment { equipped: true, ..e }), ..*self }
            } else {
                *self
            },
            None => *self,
        }
    }

    /// This object as it is once an attempt to take it off has been made.
    pub open spec fn taken_off(&self) -> Object {
        match self.equipment {
            Some(e) => if self.item is Some {
                Object { equipment: Some(Equipment { equipped: false, ..e }), ..*self }
            } else {
                *self
            },
            None => *self,
        }
    }

    /// What the log gains when this object is to be put on.
    pub open spec fn equip_lines(&self) -> Seq<Line> {
        if self.item is None {
            seq![Line { text: equip_not_item_text(self.name@), color: red() }]
        } else {
            match self.equipment {
                Some(e) => if !e.equipped {
                    seq![
                        Line { text: equipped_text(self.name@, e.slot.label()), color: light_green() },
                    ]
                } else {
                    Seq::empty()
                },
                None => seq![Line { text: equip_not_equipment_text(self.name@), color: red() }],
            }
        }
    }

    /// What the log gains when this object is to be taken off.
    pub open spec fn dequip_lines(&self) -> Seq<Line> {
        if self.item is None {
            seq![Line { text: dequip_not_item_text(self.name@), color: red() }]
        } else {
            match self.equipment {
                Some(e) => if e.equipped {
                    seq![
                        Line {
                            text: dequipped_text(self.name@, e.slot.label()),
                            color: light_yellow(),
                        },
                    ]
                } else {
                    Seq::empty()
                },
                None => seq![Line { text: dequip_not_equipment_text(self.name@), color: red() }],
            }
        }
    }

    /// Puts the object on. Only an item that is equipment can be worn;
    /// anything else is refused with a log entry. Putting on what is worn
    /// already changes nothing.
    pub fn equip(&mut self, log: &mut Messages)
        ensures
            *final(self) == old(self).put_on(),
            final(log)@ == old(log)@ + old(self).equip_lines(),
    {
        if self.item.is_none() {
            log.add(equip_not_item_message(self.name.as_str()), red());
            assert(log@ =~= old(log)@ + old(self).equip_lines());
            return ;
        }
        match self.equipment {
            Some(e) => {
                if !e.equipped {
                    self.equipment = Some(Equipment { equipped: true, ..e });
                    log.add(equipped_message(self.name.as_str(), e.slot.name()), light_green());
                }
            },
            None => {
                log.add(equip_not_equipment_message(self.name.as_str()), red());
            },
        }
        assert(log@ =~= old(log)@ + old(self).equip_lines());
    }

    /// Takes the object off; the mirror image of `equip`.
    pub fn dequip(&mut self, log: &mut Messages)
        ensures
            *final(self) == old(self).taken_off(),
            final(log)@ == old(log)@ + old(self).dequip_lines(),
    {
        if self.item.is_none() {
            log.add(dequip_not_item_message(self.name.as_str()), red());
            assert(log@ =~= old(log)@ + old(self).dequip_lines());
            return ;
        }
        match self.equipment {
            Some(e) => {
                if e.equipped {
                    self.equipment = Some(Equipment { equipped: false, ..e });
                    log.add(dequipped_message(self.name.as_str(), e.slot.name()), light_yellow());
                }
            },
            None => {
                log.add(dequip_not_equipment_message(self.name.as_str()), red());
            },
        }
        assert(log@ =~= old(log)@ + old(self).dequip_lines());
    }
}

/// The player's death: logged, and the body is drawn as a corpse.
fn player_death(player: &mut Object, game: &mut Game)
    ensures
        *final(player) == (Object { glyph: '%', color: dark_red(), ..*old(player) }),
        final(game).log@ == old(game).log@.push(Line { text: YOU_DIED@, color: red() }),
        final(game).map == old(game).map,
        final(game).inventory == old(game).inventory,
        final(game).dungeon_level == old(game).dungeon_level,
{
    game.log.add_str(YOU_DIED, red());
    player.glyph = '%';
    player.color = dark_red();
}

/// A monster's death: logged with the experience it was worth; what is
/// left neither blocks nor fights nor acts, and is named as remains.
fn monster_death(monster: &mut Object, game: &mut Game)
    requires
        old(monster).fighter is Some,
    ensures
        final(monster).name@ == remains_text(old(monster).name@),
        *final(monster) == (Object {
            name: final(monster).name,
            glyph: '%',
            color: dark_red(),
            blocks: false,
            fighter: None,
            ai: None,
            ..*old(monster)
        }),
        final(game).log@ == old(game).log@.push(
            Line {
                text: monster_death_text(old(monster).name@, old(monster).fighter->0.xp as int),
                color: orange(),
            },
        ),
        final(game).map == old(game).map,
        final(game).inventory == old(game).inventory,
        final(game).dungeon_level == old(game).dungeon_level,
{
    let xp: i32 = match monster.fighter {
        Some(f) => f.xp,
        None => 0,
    };
    game.log.add(monster_death_message(monster.name.as_str(), xp as i64), orange());
    monster.glyph = '%';
    monster.color = dark_red();
    monster.blocks = false;
    monster.fighter = None;
    monster.ai = None;
    monster.name = remains_message(monster.name.as_str());
}

/// The inventory with the item at `index` put on.
pub open spec fn worn(inventory: Seq<Object>, index: int) -> Seq<Object> {
    inventory.update(index, inventory[index].put_on())
}

/// The inventory with the item at `index` taken off.
pub open spec fn unworn(inventory: Seq<Object>, index: int) -> Seq<Object> {
    inventory.update(index, inventory[index].taken_off())
}

/// Replacing one item of the inventory changes what the inventory adds to
/// a statistic by the difference between what the two items add.
pub proof fn lemma_bonus_of_replaced(inventory: Seq<Object>, index: int, item: Object, stat: Stat)
    requires
        0 <= index < inventory.len(),
    ensures
        equipped_bonus(inventory.update(index, item), stat) == equipped_bonus(inventory, stat)
            - item_bonus(inventory[index], stat) + item_bonus(item, stat),
    decreases inventory.len(),
{
    let replaced = inventory.update(index, item);
    if index == inventory.len() - 1 {
        assert(replaced.drop_last() =~= inventory.drop_last());
    } else {
        assert(replaced.drop_last() =~= inventory.drop_last().update(index, item));
        lemma_bonus_of_replaced(inventory.drop_last(), index, item, stat);
    }
}

/// Wearing and taking off are exact, repeatable and independent of order.
/// Putting on a piece of equipment that was not worn adds exactly its own
/// bonus to every statistic, and taking off one that was worn removes
/// exactly that. Doing either a second time changes nothing. And of two
/// different items it does not matter which is put on, or taken off,
/// first: the inventory, and with it every total, comes out the same.
pub proof fn lemma_equipment_adds_up(inventory: Seq<Object>, a: int, b: int, stat: Stat)
    requires
        0 <= a < inventory.len(),
        0 <= b < inventory.len(),
        a != b,
    ensures
        inventory[a].item is Some && inventory[a].equipment is Some
            && !inventory[a].equipment->0.equipped ==> equipped_bonus(worn(inventory, a), stat)
            == equipped_bonus(inventory, stat) + inventory[a].equipment->0.bonus(stat),
        inventory[a].item is Some && inventory[a].equipment is Some
            && inventory[a].equipment->0.equipped ==> equipped_bonus(unworn(inventory, a), stat)
            == equipped_bonus(inventory, stat) - inventory[a].equipment->0.bonus(stat),
        worn(worn(inventory, a), a) == worn(inventory, a),
        unworn(unworn(inventory, a), a) == unworn(inventory, a),
        worn(worn(inventory, a), b) == worn(worn(inventory, b), a),
        unworn(unworn(inventory, a), b) == unworn(unworn(inventory, b), a),
        worn(unworn(inventory, a), b) == unworn(worn(inventory, b), a),
{
    lemma_bonus_of_replaced(inventory, a, inventory[a].put_on(), stat);
    lemma_bonus_of_replaced(inventory, a, inventory[a].taken_off(), stat);
    assert(worn(worn(inventory, a), a) =~= worn(inventory, a));
    assert(unworn(unworn(inventory, a), a) =~= unworn(inventory, a));
    assert(worn(worn(inventory, a), b) =~= worn(worn(inventory, b), a));
    assert(unworn(unworn(inventory, a), b) =~= unworn(unworn(inventory, b), a));
    assert(worn(unworn(inventory, a), b) =~= unworn(worn(inventory, b), a));
}

/// Damage that is not positive does no harm: whoever is not killed on the
/// spot is left exactly as before, and no fighter's hit points change.
pub proof fn lemma_harmless_damage(before: Object, after: Object, damage: int)
    requires
        damage <= 0,
        before.took_damage(after, damage),
    ensures
        !before.dies_from(damage) ==> after == before,
        after.fighter matches Some(f) ==> f.hp == before.fighter->0.hp,
{
}

/// An attack deals the attacker's effective power less the target's
/// effective defense, and nothing if that is not positive: then the
/// target is left exactly as it was.
pub proof fn lemma_attack_damage(
    attacker: Object,
    target: Object,
    attacker_after: Object,
    target_after: Object,
    inventory: Seq<Object>,
    log: Seq<Line>,
    log_after: Seq<Line>,
)
    requires
        attacker.attacked(target, attacker_after, target_after, inventory, log, log_after),
        target.fighter matches Some(f) ==> f.hp - attacker.damage_to(target, inventory)
            >= i32::MIN,
    ensures
        attacker.damage_to(target, inventory) >= 0,
        attacker.damage_to(target, inventory) == attacker.effective(inventory, Stat::Power)
            - target.effective(inventory, Stat::Defense) || attacker.damage_to(target, inventory)
            == 0,
        attacker.effective(inventory, Stat::Power) <= target.effective(inventory, Stat::Defense)
            ==> target_after == target && attacker_after == attacker,
        target_after.fighter matches Some(f) ==> f.hp == target.fighter->0.hp - attacker.damage_to(
            target,
            inventory,
        ),
{
}

} // verus!
