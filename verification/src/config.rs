use vstd::prelude::*;
use crate::entity::STAT_LIMIT;

verus! {

/// The tuning numbers of a game, fixed when it starts.
#[derive(Clone, Copy, Debug, PartialEq, Eq, Structural)]
pub struct Config {
    /// Columns of the level grid.
    pub map_width: i32,
    /// Rows of the level grid.
    pub map_height: i32,
    /// Largest side of a room, boundary to boundary.
    pub room_max_size: i32,
    /// Smallest side of a room.
    pub room_min_size: i32,
    /// Room placements attempted per level.
    pub max_rooms: i32,
    /// Hit points restored by a healing potion.
    pub heal_amount: i32,
    pub lightning_damage: i32,
    pub lightning_range: i32,
    pub confuse_range: i32,
    /// Turns a confused monster stumbles about.
    pub confuse_num_turns: i32,
    pub fireball_radius: i32,
    pub fireball_damage: i32,
    /// Experience needed for the first level-up at level 0.
    pub level_up_base: i32,
    /// Additional experience needed per character level.
    pub level_up_factor: i32,
    /// Sight radius of the player while standing on a lit tile.
    pub torch_radius_in_lit_area: i32,
    /// Largest sight radius the player's eyes adapt to in the dark.
    pub torch_radius_in_dark_area: i32,
}

impl Config {
    /// A level can be generated: rooms have floor and fit the grid with a
    /// rim to spare, and at least one room is tried.
    pub open spec fn can_generate(&self) -> bool {
        &&& 2 <= self.room_min_size <= self.room_max_size
        &&& self.room_max_size < self.map_width
        &&& self.room_max_size < self.map_height
        &&& 1 <= self.max_rooms
    }

    /// Levels can be gained: no threshold of experience is negative.
    pub open spec fn can_level(&self) -> bool {
        &&& 0 <= self.level_up_base
        &&& 0 <= self.level_up_factor
    }

    /// The amounts healed and dealt are neither negative nor beyond what a
    /// statistic may be. Together with the limits on the numbers of a game
    /// this is enough for every item to be usable in machine integers.
    pub open spec fn amounts_in_limits(&self) -> bool {
        &&& 0 <= self.heal_amount <= STAT_LIMIT
        &&& 0 <= self.lightning_damage <= STAT_LIMIT
        &&& 0 <= self.fireball_damage <= STAT_LIMIT
    }

    /// The values are usable: a level can be generated and levels can be
    /// gained.
    pub open spec fn wf(&self) -> bool {
        self.can_generate() && self.can_level()
    }

    /// Whether the values are usable.
    pub fn check(&self) -> (b: bool)
        ensures
            b == self.wf(),
    {
        2 <= self.room_min_size && self.room_min_size <= self.room_max_size && self.room_max_size
            < self.map_width && self.room_max_size < self.map_height && 1 <= self.max_rooms && 0
            <= self.level_up_base && 0 <= self.level_up_factor
    }

    /// Whether the amounts healed and dealt are within the limits.
    pub fn check_amounts(&self) -> (b: bool)
        ensures
            b == self.amounts_in_limits(),
    {
        0 <= self.heal_amount && self.heal_amount <= STAT_LIMIT && 0 <= self.lightning_damage
            && self.lightning_damage <= STAT_LIMIT && 0 <= self.fireball_damage
            && self.fireball_damage <= STAT_LIMIT
    }

    /// The standard game.
    #[verifier::allow_in_spec]
    pub fn standard() -> Config
        returns
            (Config {
                map_width: 80,
                map_height: 43,
                room_max_size: 10,
                room_min_size: 6,
                max_rooms: 30,
                heal_amount: 40,
                lightning_damage: 40,
                lightning_range: 5,
                confuse_range: 8,
                confuse_num_turns: 10,
                fireball_radius: 3,
                fireball_damage: 25,
                level_up_base: 200,
                level_up_factor: 150,
                torch_radius_in_lit_area: 3,
                torch_radius_in_dark_area: 10,
            }),
    {
        Config {
            map_width: 80,
            map_height: 43,
            room_max_size: 10,
            room_min_size: 6,
            max_rooms: 30,
            heal_amount: 40,
            lightning_damage: 40,
            lightning_range: 5,
            confuse_range: 8,
            confuse_num_turns: 10,
            fireball_radius: 3,
            fireball_damage: 25,
            level_up_base: 200,
            level_up_factor: 150,
            torch_radius_in_lit_area: 3,
            torch_radius_in_dark_area: 10,
        }
    }
}

} // verus!
