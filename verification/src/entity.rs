use vstd::prelude::*;
use vstd::string::*;
use crate::colors::Color;

verus! {

/// Index of the player-controlled entity in the entity store.
pub const PLAYER: usize = 0;

/// Largest magnitude of a base stat or an equipment bonus for which the
/// arithmetic of the simulation is guaranteed not to overflow.
pub const STAT_LIMIT: i32 = 1_000_000;

/// Largest magnitude of a hit-point count with the same guarantee.
pub const POINTS_LIMIT: i32 = 1_000_000_000;

/// What happens to an entity when it dies.
#[derive(Clone, Copy, Debug, PartialEq, Eq, Structural)]
pub enum DeathCallback {
    Player,
    Monster,
}

/// Combat statistics. The base values never include equipment bonuses.
/// For a monster `xp` is the reward for killing it; for the player it is
/// the experience gathered so far.
#[derive(Clone, Copy, Debug, PartialEq, Eq, Structural)]
pub struct Fighter {
    pub base_max_hp: i32,
    pub hp: i32,
    pub base_defense: i32,
    pub base_power: i32,
    pub xp: i32,
    pub on_death: DeathCallback,
}

impl Fighter {
    /// The statistics are small enough, and the experience is not
    /// negative.
    pub open spec fn in_limits(&self) -> bool {
        &&& -STAT_LIMIT <= self.base_max_hp <= STAT_LIMIT
        &&& -STAT_LIMIT <= self.base_defense <= STAT_LIMIT
        &&& -STAT_LIMIT <= self.base_power <= STAT_LIMIT
        &&& -POINTS_LIMIT <= self.hp <= POINTS_LIMIT
        &&& 0 <= self.xp
    }

    /// Whether the statistics are within the limits.
    pub fn check_limits(&self) -> (b: bool)
        ensures
            b == self.in_limits(),
    {
        -STAT_LIMIT <= self.base_max_hp && self.base_max_hp <= STAT_LIMIT && -STAT_LIMIT
            <= self.base_defense && self.base_defense <= STAT_LIMIT && -STAT_LIMIT
            <= self.base_power && self.base_power <= STAT_LIMIT && -POINTS_LIMIT <= self.hp
            && self.hp <= POINTS_LIMIT && 0 <= self.xp
    }
}

/// Behaviour of an entity that acts on its own.
#[derive(Debug)]
pub enum Ai {
    Basic,
    Confused { previous_ai: Box<Ai>, num_turns: i32 },
}

impl Ai {
    /// The behaviour found under every layer of confusion.
    pub open spec fn root(self) -> Ai
        decreases self,
    {
        match self {
            Ai::Basic => Ai::Basic,
            Ai::Confused { previous_ai, num_turns } => previous_ai.root(),
        }
    }

    /// At most one layer of confusion.
    pub open spec fn is_flat(self) -> bool {
        match self {
            Ai::Basic => true,
            Ai::Confused { previous_ai, num_turns } => !(*previous_ai is Confused),
        }
    }

    /// A copy of this behaviour.
    pub fn duplicate(&self) -> (r: Ai)
        ensures
            r == *self,
        decreases self,
    {
        match self {
            Ai::Basic => Ai::Basic,
            Ai::Confused { previous_ai, num_turns } => Ai::Confused {
                previous_ai: Box::new(previous_ai.duplicate()),
                num_turns: *num_turns,
            },
        }
    }

    /// Strips every layer of confusion.
    pub fn into_root(self) -> (r: Ai)
        ensures
            r == self.root(),
            !(r is Confused),
        decreases self,
    {
        match self {
            Ai::Basic => Ai::Basic,
            Ai::Confused { previous_ai, num_turns } => (*previous_ai).into_root(),
        }
    }

    /// Whether this is confusion.
    pub fn is_confused(&self) -> (b: bool)
        ensures
            b == (*self is Confused),
    {
        match self {
            Ai::Basic => false,
            Ai::Confused { .. } => true,
        }
    }
}

impl Clone for Ai {
    fn clone(&self) -> (r: Ai)
        ensures
            r == *self,
    {
        self.duplicate()
    }
}

/// What an item does when it is used.
#[derive(Clone, Copy, Debug, PartialEq, Eq, Structural)]
pub enum Item {
    Heal,
    Lightning,
    Confuse,
    Fireball,
    Sword,
    Shield,
}

/// Where a piece of equipment is worn.
#[derive(Clone, Copy, Debug, PartialEq, Eq, Structural)]
pub enum Slot {
    LeftHand,
    RightHand,
    Head,
}

impl Slot {
    /// The slot's name as shown to the player.
    pub open spec fn label(self) -> Seq<char> {
        match self {
            Slot::LeftHand => "left hand"@,
            Slot::RightHand => "right hand"@,
            Slot::Head => "head"@,
        }
    }

    /// The slot's name as shown to the player.
    pub fn name(&self) -> (s: &'static str)
        ensures
            s@ == self.label(),
    {
        match self {
            Slot::LeftHand => "left hand",
            Slot::RightHand => "right hand",
            Slot::Head => "head",
        }
    }
}

/// An object that can be worn. Its bonuses count only while `equipped`.
#[derive(Clone, Copy, Debug, PartialEq, Eq, Structural)]
pub struct Equipment {
    pub slot: Slot,
    pub equipped: bool,
    pub max_hp_bonus: i32,
    pub power_bonus: i32,
    pub defense_bonus: i32,
}

impl Equipment {
    /// The bonuses are small enough.
    pub open spec fn in_limits(&self) -> bool {
        &&& -STAT_LIMIT <= self.max_hp_bonus <= STAT_LIMIT
        &&& -STAT_LIMIT <= self.power_bonus <= STAT_LIMIT
        &&& -STAT_LIMIT <= self.defense_bonus <= STAT_LIMIT
    }

    /// Whether the bonuses are within the limits.
    pub fn check_limits(&self) -> (b: bool)
        ensures
            b == self.in_limits(),
    {
        -STAT_LIMIT <= self.max_hp_bonus && self.max_hp_bonus <= STAT_LIMIT && -STAT_LIMIT
            <= self.power_bonus && self.power_bonus <= STAT_LIMIT && -STAT_LIMIT
            <= self.defense_bonus && self.defense_bonus <= STAT_LIMIT
    }
}

/// A light source.
#[derive(Clone, Copy, Debug, PartialEq, Eq, Structural)]
pub struct Emitter {
    pub radius: i32,
    pub color: Color,
}

/// Anything that exists on the level or in the inventory: the player, a
/// monster, an item, the stairs.
#[derive(Clone, Debug)]
pub struct Object {
    pub x: i32,
    pub y: i32,
    pub glyph: char,
    pub color: Color,
    pub name: String,
    pub blocks: bool,
    pub alive: bool,
    pub fighter: Option<Fighter>,
    pub ai: Option<Ai>,
    pub item: Option<Item>,
    pub equipment: Option<Equipment>,
    pub emitter: Option<Emitter>,
    pub always_visible: bool,
    pub level: i32,
    pub fov_radius: i32,
}

impl Object {
    /// A bare object without any component: not alive, level 1, no sight.
    pub fn new(x: i32, y: i32, glyph: char, name: &str, color: Color, blocks: bool) -> (o: Object)
        ensures
            o.name@ == name@,
            o == (Object {
                x: x,
                y: y,
                glyph: glyph,
                color: color,
                name: o.name,
                blocks: blocks,
                alive: false,
                fighter: None,
                ai: None,
                item: None,
                equipment: None,
                emitter: None,
                always_visible: false,
                level: 1,
                fov_radius: 0,
            }),
    {
        Object {
            x: x,
            y: y,
            glyph: glyph,
            color: color,
            name: String::from_str(name),
            blocks: blocks,
            alive: false,
            fighter: None,
            ai: None,
            item: None,
            equipment: None,
            emitter: None,
            always_visible: false,
            level: 1,
            fov_radius: 0,
        }
    }

    /// Where the object stands.
    pub fn pos(&self) -> (p: (i32, i32))
        ensures
            p == (self.x, self.y),
    {
        (self.x, self.y)
    }

    /// Puts the object at `(x, y)`.
    pub fn set_pos(&mut self, x: i32, y: i32)
        ensures
            *final(self) == (Object { x: x, y: y, ..*old(self) }),
    {
        self.x = x;
        self.y = y;
    }

    /// The object stands at `(x, y)`.
    pub open spec fn at(&self, x: int, y: int) -> bool {
        self.x == x && self.y == y
    }

    /// The numbers this object carries are small enough for the
    /// simulation's arithmetic.
    pub open spec fn in_limits(&self) -> bool {
        &&& self.fighter matches Some(f) ==> f.in_limits()
        &&& self.equipment matches Some(e) ==> e.in_limits()
        &&& 0 <= self.level <= STAT_LIMIT
    }

    /// Whether the numbers this object carries are within the limits.
    pub fn check_limits(&self) -> (b: bool)
        ensures
            b == self.in_limits(),
    {
        let fighter_ok = match self.fighter {
            Some(f) => f.check_limits(),
            None => true,
        };
        let equipment_ok = match self.equipment {
            Some(e) => e.check_limits(),
            None => true,
        };
        fighter_ok && equipment_ok && 0 <= self.level && self.level <= STAT_LIMIT
    }
}

/// Squared Euclidean distance between two grid positions.
pub open spec fn dist_sq(x1: int, y1: int, x2: int, y2: int) -> int {
    (x1 - x2) * (x1 - x2) + (y1 - y2) * (y1 - y2)
}

/// Squared Euclidean distance between two grid positions, whatever their
/// coordinates.
pub fn distance_squared(x1: i32, y1: i32, x2: i32, y2: i32) -> (d: i128)
    ensures
        d == dist_sq(x1 as int, y1 as int, x2 as int, y2 as int),
        0 <= d,
{
    let dx: i128 = x1 as i128 - x2 as i128;
    let dy: i128 = y1 as i128 - y2 as i128;
    assert(0 <= dx * dx <= 0x1_0000_0000_0000_0000) by (nonlinear_arith)
        requires
            -0x1_0000_0000 <= dx <= 0x1_0000_0000,
    ;
    assert(0 <= dy * dy <= 0x1_0000_0000_0000_0000) by (nonlinear_arith)
        requires
            -0x1_0000_0000 <= dy <= 0x1_0000_0000,
    ;
    dx * dx + dy * dy
}

/// One step of a depth table: from dungeon level `level` on, the table's
/// value is `value`.
#[derive(Clone, Copy, Debug, PartialEq, Eq, Structural)]
pub struct Transition {
    pub level: u32,
    pub value: u32,
}

/// How the use of an item ended.
#[derive(Clone, Copy, Debug, PartialEq, Eq, Structural)]
pub enum UseResult {
    UsedUp,
    UsedAndKept,
    Cancelled,
}

/// Whether a player action consumed the turn.
#[derive(Clone, Copy, Debug, PartialEq, Eq, Structural)]
pub enum PlayerAction {
    TookTurn,
    DidntTakeTurn,
    Exit,
}

} // verus!
