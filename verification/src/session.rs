use vstd::prelude::*;
use vstd::string::*;
use crate::colors::Color;
use crate::entity::Object;
use crate::tile::LevelMap;

verus! {

/// Most items the inventory can hold.
pub const INVENTORY_CAPACITY: usize = 26;

/// One entry of the message log.
#[derive(Clone, Debug)]
pub struct Message {
    pub text: String,
    pub color: Color,
}

/// What a log entry says, as mathematics: its characters and its colour.
pub struct Line {
    pub text: Seq<char>,
    pub color: Color,
}

impl View for Message {
    type V = Line;

    open spec fn view(&self) -> Line {
        Line { text: self.text@, color: self.color }
    }
}

/// The message log: ordered, and only ever appended to.
#[derive(Clone, Debug)]
pub struct Messages {
    pub entries: Vec<Message>,
}

impl View for Messages {
    type V = Seq<Line>;

    open spec fn view(&self) -> Seq<Line> {
        Seq::new(self.entries@.len(), |i: int| self.entries@[i]@)
    }
}

impl Messages {
    /// An empty log.
    pub fn new() -> (log: Messages)
        ensures
            log@ == Seq::<Line>::empty(),
    {
        let log = Messages { entries: Vec::new() };
        assert(log@ =~= Seq::<Line>::empty());
        log
    }

    /// Appends one entry.
    pub fn add(&mut self, text: String, color: Color)
        ensures
            final(self)@ == old(self)@.push(Line { text: text@, color: color }),
    {
        self.entries.push(Message { text: text, color: color });
        assert(self@ =~= old(self)@.push(Line { text: text@, color: color }));
    }

    /// Appends one entry whose text is given as a string slice.
    pub fn add_str(&mut self, text: &str, color: Color)
        ensures
            final(self)@ == old(self)@.push(Line { text: text@, color: color }),
    {
        self.add(String::from_str(text), color);
    }

    /// Number of entries.
    pub fn len(&self) -> (n: usize)
        ensures
            n == self@.len(),
    {
        self.entries.len()
    }
}

/// Everything a running game owns besides the entities on the level.
#[derive(Clone, Debug)]
pub struct Game {
    pub map: LevelMap,
    pub log: Messages,
    pub inventory: Vec<Object>,
    pub dungeon_level: u32,
}

impl Game {
    /// The inventory respects its capacity and every item in it carries
    /// numbers within the limits of the simulation's arithmetic.
    pub open spec fn inventory_in_limits(&self) -> bool {
        &&& self.inventory@.len() <= INVENTORY_CAPACITY
        &&& forall|i: int| 0 <= i < self.inventory@.len() ==> (#[trigger] self.inventory@[i]).in_limits()
    }

    /// Whether the inventory is within its limits.
    pub fn check_inventory_limits(&self) -> (b: bool)
        ensures
            b == self.inventory_in_limits(),
    {
        if self.inventory.len() > INVENTORY_CAPACITY {
            return false;
        }
        let mut i: usize = 0;
        while i < self.inventory.len()
            invariant
                i <= self.inventory@.len(),
                forall|j: int| 0 <= j < i ==> (#[trigger] self.inventory@[j]).in_limits(),
            decreases self.inventory@.len() - i,
        {
            if !self.inventory[i].check_limits() {
                return false;
            }
            i = i + 1;
        }
        true
    }
}

} // verus!
