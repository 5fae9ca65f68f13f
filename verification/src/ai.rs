use vstd::prelude::*;
use vstd::string::*;
use crate::colors::{red, white};
use crate::entity::{dist_sq, distance_squared, Ai, Object, PLAYER};
use crate::fov::FovMap;
use crate::helper::{approached, attack_from_to, move_by, move_towards, shifted};
use crate::messages::{
    no_longer_confused_message, no_longer_confused_text, still_confused_message,
    still_confused_text,
};
use crate::rng::random_range;
use crate::session::{Game, Line};
use crate::tile::LevelMap;

verus! {

impl Ai {
    /// The behaviour one turn later. A basic monster stays as it is. A
    /// confused one has a turn less to go while it has turns left, and
    /// after that it is what it was before the confusion, with every layer
    /// of confusion gone.
    pub open spec fn next(self) -> Ai {
        match self {
            Ai::Basic => Ai::Basic,
            Ai::Confused { previous_ai, num_turns } => if num_turns >= 0 {
                Ai::Confused { previous_ai: previous_ai, num_turns: (num_turns - 1) as i32 }
            } else {
                previous_ai.root()
            },
        }
    }

    /// The behaviour `turns` turns later.
    pub open spec fn after(self, turns: nat) -> Ai
        decreases turns,
    {
        if turns == 0 {
            self
        } else {
            self.next().after((turns - 1) as nat)
        }
    }
}

/// Confusion runs down turn by turn and then ends for good: a monster
/// confused for `turns` more turns is, `passed` turns later, confused for
/// that many turns less, and after two turns more than it had to go it is
/// exactly what it was before, not confused at all.
pub proof fn lemma_confusion_wears_off(previous: Ai, turns: i32, passed: nat)
    requires
        turns >= -1,
        passed <= turns + 1,
    ensures
        (Ai::Confused { previous_ai: Box::new(previous), num_turns: turns }).after(passed) == (
        Ai::Confused { previous_ai: Box::new(previous), num_turns: (turns - passed) as i32 }),
        (Ai::Confused { previous_ai: Box::new(previous), num_turns: turns }).after(
            (turns + 2) as nat,
        ) == previous.root(),
        !(previous.root() is Confused),
        !(previous is Confused) ==> previous.root() == previous,
    decreases turns + 1,
{
    let now = Ai::Confused { previous_ai: Box::new(previous), num_turns: turns };
    lemma_root_is_clear(previous);
    if turns == -1 {
        assert(now.next() == previous.root());
        assert(now.after(1) == now.next().after(0));
        reveal_with_fuel(Ai::after, 2);
    } else {
        let later = Ai::Confused { previous_ai: Box::new(previous), num_turns: (turns - 1) as i32 };
        assert(now.next() == later);
        if passed > 0 {
            lemma_confusion_wears_off(previous, (turns - 1) as i32, (passed - 1) as nat);
        } else {
            lemma_confusion_wears_off(previous, (turns - 1) as i32, 0);
        }
        assert(now.after((turns + 2) as nat) == later.after((turns + 1) as nat));
    }
}

/// What is found under the confusion is not confused, and is the
/// behaviour itself where that was not confused to begin with.
pub proof fn lemma_root_is_clear(ai: Ai)
    ensures
        !(ai.root() is Confused),
        !(ai is Confused) ==> ai.root() == ai,
    decreases ai,
{
    match ai {
        Ai::Basic => {},
        Ai::Confused { previous_ai, num_turns } => {
            lemma_root_is_clear(*previous_ai);
        },
    }
}

/// The objects with the behaviour of object `id` taken out, as they are
/// while that object acts.
pub open spec fn acting(objects: Seq<Object>, id: int) -> Seq<Object> {
    objects.update(id, Object { ai: None, ..objects[id] })
}

/// `after` and `log_after` are what a turn of the basic monster `id`
/// leaves behind. A monster that the player cannot see does nothing. One
/// that is two tiles or more away steps towards the player. One that is
/// nearer attacks, provided the player has hit points left.
pub open spec fn hunted(
    map: &LevelMap,
    fov: &FovMap,
    inventory: Seq<Object>,
    before: Seq<Object>,
    log: Seq<Line>,
    after: Seq<Object>,
    log_after: Seq<Line>,
    id: int,
) -> bool {
    let me = before[id];
    let player = before[PLAYER as int];
    if !fov.visible(me.x as int, me.y as int) {
        after == before && log_after == log
    } else if dist_sq(me.x as int, me.y as int, player.x as int, player.y as int) >= 4 {
        after == approached(map, before, id, player.x as int, player.y as int) && log_after == log
    } else if player.fighter matches Some(f) && f.hp > 0 {
        &&& after.len() == before.len()
        &&& forall|i: int|
            0 <= i < before.len() && i != id && i != PLAYER ==> after[i] == before[i]
        &&& me.attacked(player, after[id], after[PLAYER as int], inventory, log, log_after)
    } else {
        after == before && log_after == log
    }
}

/// The basic monster `id` can take its turn: it is not the player, all of
/// its neighbours are on the grid, and its attack on the player can be
/// computed in machine integers.
pub open spec fn can_hunt(game: &Game, objects: Seq<Object>, id: int) -> bool {
    &&& 0 <= id < objects.len()
    &&& id != PLAYER
    &&& game.map.wf()
    &&& game.map.interior(objects[id].x as int, objects[id].y as int)
    &&& game.inventory_in_limits()
    &&& objects[id].can_attack(objects[PLAYER as int], game.inventory@)
}

/// The turn of a basic monster: if the player can see it, it steps towards
/// the player from afar and attacks from nearby.
pub fn ai_basic(monster_id: usize, game: &mut Game, objects: &mut [Object], fov: &FovMap) -> (ai:
    Ai)
    requires
        can_hunt(old(game), old(objects)@, monster_id as int),
    ensures
        ai == Ai::Basic,
        final(game).map == old(game).map,
        final(game).inventory == old(game).inventory,
        final(game).dungeon_level == old(game).dungeon_level,
        hunted(
            &old(game).map,
            fov,
            old(game).inventory@,
            old(objects)@,
            old(game).log@,
            final(objects)@,
            final(game).log@,
            monster_id as int,
        ),
{
    let (monster_x, monster_y) = objects[monster_id].pos();
    if fov.is_in_fov(monster_x, monster_y) {
        let (player_x, player_y) = objects[PLAYER].pos();
        if distance_squared(monster_x, monster_y, player_x, player_y) >= 4 {
            move_towards(monster_id, player_x, player_y, game, objects);
        } else {
            let player_has_hp = match objects[PLAYER].fighter {
                Some(f) => f.hp > 0,
                None => false,
            };
            if player_has_hp {
                attack_from_to(monster_id, PLAYER, game, objects);
            }
        }
    }
    Ai::Basic
}

/// `after` and `log_after` are what a turn of the confused monster `id`
/// leaves behind when it draws the step `(dx, dy)`. With turns left it
/// tries that step and its stumbling is logged; without, it stays where it
/// is and its recovery is logged.
pub open spec fn stumbled(
    map: &LevelMap,
    before: Seq<Object>,
    log: Seq<Line>,
    after: Seq<Object>,
    log_after: Seq<Line>,
    id: int,
    num_turns: int,
    dx: int,
    dy: int,
) -> bool {
    if num_turns >= 0 {
        &&& after == shifted(map, before, id, dx, dy)
        &&& log_after == log.push(
            Line { text: still_confused_text(before[id].name@), color: white() },
        )
    } else {
        &&& after == before
        &&& log_after == log.push(
            Line { text: no_longer_confused_text(before[id].name@), color: red() },
        )
    }
}

/// The turn of a confused monster that has drawn the step `(dx, dy)`.
pub fn confused_step(
    monster_id: usize,
    game: &mut Game,
    objects: &mut [Object],
    previous_ai: Box<Ai>,
    num_turns: i32,
    dx: i32,
    dy: i32,
) -> (ai: Ai)
    requires
        monster_id < old(objects)@.len(),
        -1 <= dx <= 1,
        -1 <= dy <= 1,
        num_turns >= 0 ==> old(game).map.wf() && old(game).map.interior(
            old(objects)@[monster_id as int].x as int,
            old(objects)@[monster_id as int].y as int,
        ),
    ensures
        ai == (Ai::Confused { previous_ai: previous_ai, num_turns: num_turns }).next(),
        final(game).map == old(game).map,
        final(game).inventory == old(game).inventory,
        final(game).dungeon_level == old(game).dungeon_level,
        stumbled(
            &old(game).map,
            old(objects)@,
            old(game).log@,
            final(objects)@,
            final(game).log@,
            monster_id as int,
            num_turns as int,
            dx as int,
            dy as int,
        ),
{
    if num_turns >= 0 {
        move_by(monster_id, dx, dy, game, objects);
        game.log.add(still_confused_message(objects[monster_id].name.as_str()), white());
        Ai::Confused { previous_ai: previous_ai, num_turns: num_turns - 1 }
    } else {
        game.log.add(no_longer_confused_message(objects[monster_id].name.as_str()), red());
        (*previous_ai).into_root()
    }
}

/// The turn of a confused monster: with turns left it stumbles one step in
/// a random direction, which may be no step at all, and has one turn less
/// to go; without, it recovers what it was before.
pub fn ai_confused(
    monster_id: usize,
    game: &mut Game,
    objects: &mut [Object],
    previous_ai: Box<Ai>,
    num_turns: i32,
) -> (ai: Ai)
    requires
        monster_id < old(objects)@.len(),
        num_turns >= 0 ==> old(game).map.wf() && old(game).map.interior(
            old(objects)@[monster_id as int].x as int,
            old(objects)@[monster_id as int].y as int,
        ),
    ensures
        ai == (Ai::Confused { previous_ai: previous_ai, num_turns: num_turns }).next(),
        final(game).map == old(game).map,
        final(game).inventory == old(game).inventory,
        final(game).dungeon_level == old(game).dungeon_level,
        exists|dx: int, dy: int|
            -1 <= dx <= 1 && -1 <= dy <= 1 && #[trigger] stumbled(
                &old(game).map,
                old(objects)@,
                old(game).log@,
                final(objects)@,
                final(game).log@,
                monster_id as int,
                num_turns as int,
                dx,
                dy,
            ),
{
    if num_turns >= 0 {
        let dx: i32 = random_range(-1, 2);
        let dy: i32 = random_range(-1, 2);
        confused_step(monster_id, game, objects, previous_ai, num_turns, dx, dy)
    } else {
        confused_step(monster_id, game, objects, previous_ai, num_turns, 0, 0)
    }
}

/// `after` and `log_after` are what a turn of object `id` leaves behind.
/// Without a behaviour it does nothing. With one it acts as that says,
/// and holds the behaviour of the next turn afterwards.
pub open spec fn took_turn(
    map: &LevelMap,
    fov: &FovMap,
    inventory: Seq<Object>,
    before: Seq<Object>,
    log: Seq<Line>,
    after: Seq<Object>,
    log_after: Seq<Line>,
    id: int,
) -> bool {
    match before[id].ai {
        None => after == before && log_after == log,
        Some(ai) => {
            &&& after.len() == before.len()
            &&& after[id].ai == Some(ai.next())
            &&& match ai {
                Ai::Basic => hunted(
                    map,
                    fov,
                    inventory,
                    acting(before, id),
                    log,
                    acting(after, id),
                    log_after,
                    id,
                ),
                Ai::Confused { previous_ai, num_turns } => exists|dx: int, dy: int|
                    -1 <= dx <= 1 && -1 <= dy <= 1 && #[trigger] stumbled(
                        map,
                        acting(before, id),
                        log,
                        acting(after, id),
                        log_after,
                        id,
                        num_turns as int,
                        dx,
                        dy,
                    ),
            }
        },
    }
}

/// Lets object `monster_id` take its turn, if it has a behaviour.
pub fn ai_take_turn(monster_id: usize, game: &mut Game, objects: &mut [Object], fov: &FovMap)
    requires
        can_hunt(old(game), old(objects)@, monster_id as int),
    ensures
        final(game).map == old(game).map,
        final(game).inventory == old(game).inventory,
        final(game).dungeon_level == old(game).dungeon_level,
        took_turn(
            &old(game).map,
            fov,
            old(game).inventory@,
            old(objects)@,
            old(game).log@,
            final(objects)@,
            final(game).log@,
            monster_id as int,
        ),
{
    match objects[monster_id].ai.take() {
        Some(ai) => {
            assert(objects@ =~= acting(old(objects)@, monster_id as int));
            let new_ai = match ai {
                Ai::Basic => ai_basic(monster_id, game, objects, fov),
                Ai::Confused { previous_ai, num_turns } => ai_confused(
                    monster_id,
                    game,
                    objects,
                    previous_ai,
                    num_turns,
                ),
            };
            let ghost acted = objects@;
            objects[monster_id].ai = Some(new_ai);
            assert(acting(objects@, monster_id as int) =~= acted);
        },
        None => {
            assert(objects@ =~= old(objects)@);
        },
    }
}

} // verus!
