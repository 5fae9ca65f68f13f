use vstd::prelude::*;
use vstd::string::*;
use crate::ai::{acting, ai_take_turn, stumbled, took_turn};
use crate::combat::{lemma_effective_bounded, Stat};
use crate::entity::{
    dist_sq, Ai, DeathCallback, Object, PlayerAction, PLAYER, POINTS_LIMIT, STAT_LIMIT,
};
use crate::fov::FovMap;
use crate::helper::{blocked_at, shifted, step_towards};
use crate::session::{Game, Line};
use crate::tile::LevelMap;

verus! {

/// Number of entities up to which the limits on the numbers of a game
/// vouch for the arithmetic of the simulation.
pub const OBJECT_LIMIT: usize = 1000;

/// Whatever acts can also fight.
pub open spec fn able(o: Object) -> bool {
    o.ai is Some ==> o.fighter is Some
}

/// The object is where the simulation expects an object to be, away from
/// the rim of the grid, and is able.
pub open spec fn sound(o: Object, map: &LevelMap) -> bool {
    &&& map.interior(o.x as int, o.y as int)
    &&& able(o)
}

/// A level, an inventory and an entity store that go together: the grid is
/// a rectangle with a closed rim; the first entity is the player, who can
/// fight, owns the inventory, does not act on its own and is no item;
/// every entity is sound and every item in the inventory able.
pub open spec fn in_order(map: &LevelMap, inventory: Seq<Object>, objects: Seq<Object>) -> bool {
    &&& map.wf()
    &&& map.enclosed()
    &&& objects.len() >= 1
    &&& objects[PLAYER as int].owns_inventory()
    &&& objects[PLAYER as int].ai is None
    &&& objects[PLAYER as int].item is None
    &&& forall|i: int| 0 <= i < objects.len() ==> sound(#[trigger] objects[i], map)
    &&& forall|i: int| 0 <= i < inventory.len() ==> able(#[trigger] inventory[i])
}

/// The game is in order.
pub open spec fn arranged(game: &Game, objects: Seq<Object>) -> bool {
    in_order(&game.map, game.inventory@, objects)
}

/// The numbers of the game leave the arithmetic of the simulation room:
/// statistics, bonuses and hit points are within their limits, no monster
/// is worth more experience than a statistic may be, the player has
/// gathered no more than hit points may be, and neither the level nor the
/// inventory holds more than it may. This is more than any one action
/// asks for, but it is easily tested and enough for every one of them, as
/// `lemma_limits_allow_ai` and `lemma_limits_suffice` show. Play can take
/// the numbers beyond the limits, experience above all.
pub open spec fn within_limits(game: &Game, objects: Seq<Object>) -> bool {
    &&& game.inventory_in_limits()
    &&& game.dungeon_level < u32::MAX
    &&& 1 <= objects.len() <= OBJECT_LIMIT
    &&& forall|i: int| 0 <= i < objects.len() ==> (#[trigger] objects[i]).in_limits()
    &&& forall|i: int|
        1 <= i < objects.len() ==> ((#[trigger] objects[i]).fighter matches Some(f) ==> f.xp
            <= STAT_LIMIT)
    &&& objects[PLAYER as int].fighter matches Some(f) ==> f.xp <= POINTS_LIMIT
}

/// Whether the numbers of the game leave the arithmetic of the simulation
/// room.
pub fn check_limits(game: &Game, objects: &[Object]) -> (b: bool)
    ensures
        b == within_limits(game, objects@),
{
    if !game.check_inventory_limits() || game.dungeon_level == u32::MAX || objects.len() < 1
        || objects.len() > OBJECT_LIMIT {
        return false;
    }
    let mut i: usize = 0;
    while i < objects.len()
        invariant
            1 <= objects@.len(),
            i <= objects@.len(),
            forall|j: int| 0 <= j < i ==> (#[trigger] objects@[j]).in_limits(),
            forall|j: int|
                1 <= j < i ==> ((#[trigger] objects@[j]).fighter matches Some(f) ==> f.xp
                    <= STAT_LIMIT),
            i >= 1 ==> (objects@[PLAYER as int].fighter matches Some(f) ==> f.xp <= POINTS_LIMIT),
        decreases objects@.len() - i,
    {
        if !objects[i].check_limits() {
            return false;
        }
        let cap: i32 = if i == PLAYER {
            POINTS_LIMIT
        } else {
            STAT_LIMIT
        };
        match objects[i].fighter {
            Some(f) => {
                if f.xp > cap {
                    return false;
                }
            },
            None => {},
        }
        i = i + 1;
    }
    true
}

/// Whether the game is in order.
pub fn check_arranged(game: &Game, objects: &[Object]) -> (b: bool)
    ensures
        b == arranged(game, objects@),
{
    if game.map.tiles.len() < 1 || game.map.tiles.len() > i32::MAX as usize {
        return false;
    }
    let height: usize = game.map.tiles[0].len();
    if height < 1 || height > i32::MAX as usize {
        return false;
    }
    let mut x: usize = 0;
    while x < game.map.tiles.len()
        invariant
            x <= game.map.tiles@.len(),
            1 <= game.map.width() <= i32::MAX,
            height == game.map.height(),
            1 <= height <= i32::MAX,
            forall|i: int| 0 <= i < x ==> (#[trigger] game.map.tiles@[i])@.len() == height,
        decreases game.map.tiles@.len() - x,
    {
        if game.map.tiles[x].len() != height {
            return false;
        }
        x = x + 1;
    }
    assert(game.map.wf());
    let width: i32 = game.map.columns();
    let rows: i32 = game.map.rows();
    let mut x: i32 = 0;
    while x < width
        invariant
            0 <= x <= width,
            game.map.wf(),
            width == game.map.width(),
            rows == game.map.height(),
            forall|i: int, j: int|
                0 <= i < x && game.map.in_bounds(i, j) && !game.map.interior(i, j) ==> (
                #[trigger] game.map.tile(i, j)).blocked,
        decreases width - x,
    {
        let mut y: i32 = 0;
        while y < rows
            invariant
                0 <= x < width,
                0 <= y <= rows,
                game.map.wf(),
                width == game.map.width(),
                rows == game.map.height(),
                forall|i: int, j: int|
                    0 <= i < x && game.map.in_bounds(i, j) && !game.map.interior(i, j) ==> (
                    #[trigger] game.map.tile(i, j)).blocked,
                forall|j: int|
                    0 <= j < y && !game.map.interior(x as int, j) ==> (#[trigger] game.map.tile(
                        x as int,
                        j,
                    )).blocked,
            decreases rows - y,
        {
            let on_rim = x == 0 || y == 0 || x == width - 1 || y == rows - 1;
            if on_rim && !game.map.get(x, y).blocked {
                assert(!game.map.interior(x as int, y as int));
                return false;
            }
            y = y + 1;
        }
        x = x + 1;
    }
    assert(game.map.enclosed());
    if objects.len() < 1 {
        return false;
    }
    let player_ok = match objects[PLAYER].fighter {
        Some(f) => f.on_death == DeathCallback::Player && objects[PLAYER].ai.is_none()
            && objects[PLAYER].item.is_none(),
        None => false,
    };
    if !player_ok {
        return false;
    }
    let mut k: usize = 0;
    while k < game.inventory.len()
        invariant
            k <= game.inventory@.len(),
            forall|j: int| 0 <= j < k ==> able(#[trigger] game.inventory@[j]),
        decreases game.inventory@.len() - k,
    {
        if game.inventory[k].ai.is_some() && game.inventory[k].fighter.is_none() {
            return false;
        }
        k = k + 1;
    }
    let mut i: usize = 0;
    while i < objects.len()
        invariant
            i <= objects@.len(),
            game.map.wf(),
            width == game.map.width(),
            rows == game.map.height(),
            forall|k: int| 0 <= k < i ==> sound(#[trigger] objects@[k], &game.map),
        decreases objects@.len() - i,
    {
        let o = &objects[i];
        let inside = 1 <= o.x && o.x as i64 <= width as i64 - 2 && 1 <= o.y && o.y as i64
            <= rows as i64 - 2;
        if !inside || (o.ai.is_some() && o.fighter.is_none()) {
            return false;
        }
        i = i + 1;
    }
    true
}

/// The monsters' turns can be computed in machine integers: the player,
/// the inventory and everything that acts carry numbers within the limits,
/// and the experience of whoever acts has room for the player's, which is
/// what a monster gains that kills the player.
pub open spec fn can_run_ai(game: &Game, objects: Seq<Object>) -> bool {
    &&& game.inventory_in_limits()
    &&& objects[PLAYER as int].in_limits()
    &&& forall|i: int|
        1 <= i < objects.len() && (#[trigger] objects[i]).ai is Some ==> objects[i].in_limits()
            && fits_reward(objects[i], objects[PLAYER as int])
}

/// The experience of `killer`, if it is a fighter, has room for that of
/// `victim`, if it is one.
pub open spec fn fits_reward(killer: Object, victim: Object) -> bool {
    killer.fighter matches Some(k) ==> (victim.fighter matches Some(v) ==> k.xp + v.xp <= i32::MAX)
}

/// Within the limits on the numbers of a game the monsters' turns can be
/// computed in machine integers.
pub proof fn lemma_limits_allow_ai(game: &Game, objects: Seq<Object>)
    requires
        within_limits(game, objects),
    ensures
        can_run_ai(game, objects),
{
}

/// The behaviour after a turn, for something that may have none.
pub open spec fn next_ai(ai: Option<Ai>) -> Option<Ai> {
    match ai {
        Some(ai) => Some(ai.next()),
        None => None,
    }
}

/// `after` and `log_after` are what the first `count` entities leave
/// behind when each of them in turn, in the order of the entity store, has
/// taken its turn.
pub open spec fn turns_taken(
    map: &LevelMap,
    fov: &FovMap,
    inventory: Seq<Object>,
    before: Seq<Object>,
    log: Seq<Line>,
    after: Seq<Object>,
    log_after: Seq<Line>,
    count: int,
) -> bool
    decreases count,
{
    if count <= 0 {
        after == before && log_after == log
    } else {
        exists|between: Seq<Object>, log_between: Seq<Line>|
            turns_taken(map, fov, inventory, before, log, between, log_between, count - 1)
                && #[trigger] took_turn(
                map,
                fov,
                inventory,
                between,
                log_between,
                after,
                log_after,
                count - 1,
            )
    }
}

/// Lets everything that acts on its own take its turn, in the order of the
/// entity store. Whatever the monsters do, the game stays in order, every
/// monster ends up with the behaviour of its next turn, nothing that does
/// not act is touched, except the player, and the player is not moved.
pub fn run_ai_turns(game: &mut Game, objects: &mut [Object], fov: &FovMap)
    requires
        arranged(old(game), old(objects)@),
        can_run_ai(old(game), old(objects)@),
    ensures
        arranged(final(game), final(objects)@),
        final(game).map == old(game).map,
        final(game).inventory == old(game).inventory,
        final(game).dungeon_level == old(game).dungeon_level,
        turns_taken(
            &old(game).map,
            fov,
            old(game).inventory@,
            old(objects)@,
            old(game).log@,
            final(objects)@,
            final(game).log@,
            old(objects)@.len() as int,
        ),
        old(game).log@.is_prefix_of(final(game).log@),
        final(objects)@.len() == old(objects)@.len(),
        forall|i: int|
            0 <= i < old(objects)@.len() ==> (#[trigger] final(objects)@[i]).ai == next_ai(
                old(objects)@[i].ai,
            ),
        forall|i: int|
            1 <= i < old(objects)@.len() && old(objects)@[i].ai is None
                ==> #[trigger] final(objects)@[i] == old(objects)@[i],
        final(objects)@[PLAYER as int].x == old(objects)@[PLAYER as int].x,
        final(objects)@[PLAYER as int].y == old(objects)@[PLAYER as int].y,
        final(objects)@[PLAYER as int].in_limits(),
{
    let count = objects.len();
    let mut id: usize = 0;
    while id < count
        invariant
            id <= count,
            count == objects@.len(),
            count == old(objects)@.len(),
            arranged(game, objects@),
            game.inventory_in_limits(),
            game.map == old(game).map,
            game.inventory == old(game).inventory,
            game.dungeon_level == old(game).dungeon_level,
            old(game).log@.is_prefix_of(game.log@),
            turns_taken(
                &old(game).map,
                fov,
                old(game).inventory@,
                old(objects)@,
                old(game).log@,
                objects@,
                game.log@,
                id as int,
            ),
            objects@[PLAYER as int].in_limits(),
            objects@[PLAYER as int].fighter->0.xp == old(objects)@[PLAYER as int].fighter->0.xp,
            objects@[PLAYER as int].x == old(objects)@[PLAYER as int].x,
            objects@[PLAYER as int].y == old(objects)@[PLAYER as int].y,
            forall|i: int|
                id <= i < count && i != PLAYER ==> #[trigger] objects@[i] == old(objects)@[i],
            can_run_ai(old(game), old(objects)@),
            old(objects)@[PLAYER as int].fighter is Some,
            forall|i: int|
                0 <= i < id ==> (#[trigger] objects@[i]).ai == next_ai(old(objects)@[i].ai),
            forall|i: int|
                1 <= i < id && old(objects)@[i].ai is None ==> #[trigger] objects@[i]
                    == old(objects)@[i],
        decreases count - id,
    {
        let ghost before = objects@;
        let ghost log_before = game.log@;
        if objects[id].ai.is_some() {
            proof {
                assert(sound(before[id as int], &game.map));
                assert(id != PLAYER);
                assert(before[id as int] == old(objects)@[id as int]);
                assert(old(objects)@[id as int].in_limits() && fits_reward(
                    old(objects)@[id as int],
                    old(objects)@[PLAYER as int],
                ));
                lemma_effective_bounded(before[id as int], game.inventory@, Stat::Power);
                lemma_effective_bounded(before[PLAYER as int], game.inventory@, Stat::Defense);
            }
            ai_take_turn(id, game, objects, fov);
            proof {
                lemma_turn_keeps_order(game, fov, before, log_before, objects@, game.log@, id as int);
            }
        }
        assert(took_turn(
            &old(game).map,
            fov,
            old(game).inventory@,
            before,
            log_before,
            objects@,
            game.log@,
            (id + 1) - 1,
        ));
        id = id + 1;
    }
}

/// A turn of a monster leaves the game in order: the monster ends where
/// nothing blocked it or stays put, only it and the player are touched,
/// the player is not moved and keeps numbers within the limits, and the
/// log only grows.
proof fn lemma_turn_keeps_order(
    game: &Game,
    fov: &FovMap,
    before: Seq<Object>,
    log: Seq<Line>,
    after: Seq<Object>,
    log_after: Seq<Line>,
    id: int,
)
    requires
        arranged(game, before),
        game.inventory_in_limits(),
        1 <= id < before.len(),
        before[id].ai is Some,
        before[id].in_limits(),
        before[PLAYER as int].in_limits(),
        took_turn(&game.map, fov, game.inventory@, before, log, after, log_after, id),
    ensures
        arranged(game, after),
        after.len() == before.len(),
        log.is_prefix_of(log_after),
        after[id].ai == next_ai(before[id].ai),
        forall|i: int| 0 <= i < before.len() && i != id && i != PLAYER ==> after[i] == before[i],
        after[PLAYER as int].x == before[PLAYER as int].x,
        after[PLAYER as int].y == before[PLAYER as int].y,
        after[PLAYER as int].in_limits(),
        after[PLAYER as int].fighter->0.xp == before[PLAYER as int].fighter->0.xp,
{
    let map = &game.map;
    let me = before[id];
    let player = before[PLAYER as int];
    let stripped = acting(before, id);
    let stripped_after = acting(after, id);
    assert(sound(me, map));
    assert(sound(player, map));
    assert(stripped[id] == (Object { ai: None, ..me }));
    assert(stripped[PLAYER as int] == player);
    assert forall|i: int| 0 <= i < before.len() && i != id implies stripped[i] == before[i] by {}
    assert forall|i: int| 0 <= i < after.len() && i != id implies stripped_after[i]
        == after[i] by {}
    assert(stripped_after[id] == (Object { ai: None, ..after[id] }));
    match me.ai->0 {
        Ai::Basic => {
            let mover = stripped[id];
            if !fov.visible(mover.x as int, mover.y as int) {
                assert(stripped_after == stripped);
                assert(log_after == log);
            } else if dist_sq(
                mover.x as int,
                mover.y as int,
                player.x as int,
                player.y as int,
            ) >= 4 {
                let step = step_towards(
                    mover.x as int,
                    mover.y as int,
                    player.x as int,
                    player.y as int,
                );
                lemma_shift_keeps_inside(map, stripped, id, step.0, step.1);
                assert(log_after == log);
            } else if player.fighter matches Some(f) && f.hp > 0 {
                lemma_effective_bounded(mover, game.inventory@, Stat::Power);
                lemma_effective_bounded(player, game.inventory@, Stat::Defense);
                assert(mover.attacked(
                    player,
                    stripped_after[id],
                    stripped_after[PLAYER as int],
                    game.inventory@,
                    log,
                    log_after,
                ));
                assert(player.fighter->0.on_death == DeathCallback::Player);
            } else {
                assert(stripped_after == stripped);
                assert(log_after == log);
            }
        },
        Ai::Confused { previous_ai, num_turns } => {
            let (dx, dy) = choose|dx: int, dy: int|
                -1 <= dx <= 1 && -1 <= dy <= 1 && #[trigger] stumbled(
                    map,
                    stripped,
                    log,
                    stripped_after,
                    log_after,
                    id,
                    num_turns as int,
                    dx,
                    dy,
                );
            if num_turns >= 0 {
                lemma_shift_keeps_inside(map, stripped, id, dx, dy);
            }
        },
    }
    assert forall|i: int| 0 <= i < after.len() implies sound(#[trigger] after[i], map) by {
        if i == id {
            assert(stripped_after[id].x == after[id].x);
            assert(map.interior(stripped_after[id].x as int, stripped_after[id].y as int));
            assert(stripped_after[id].fighter is Some);
        } else {
            assert(stripped_after[i] == after[i]);
            if i != PLAYER {
                assert(after[i] == before[i]);
                assert(sound(before[i], map));
            }
        }
    }
}

/// A step that nothing blocks ends away from the rim of an enclosed grid,
/// and a step that is blocked ends where it began; either way only the
/// one who steps is touched, and only in its position.
proof fn lemma_shift_keeps_inside(map: &LevelMap, objects: Seq<Object>, id: int, dx: int, dy: int)
    requires
        map.wf(),
        map.enclosed(),
        0 <= id < objects.len(),
        map.interior(objects[id].x as int, objects[id].y as int),
        -1 <= dx <= 1,
        -1 <= dy <= 1,
    ensures
        ({
            let after = shifted(map, objects, id, dx, dy);
            &&& after.len() == objects.len()
            &&& map.interior(after[id].x as int, after[id].y as int)
            &&& after[id] == (Object { x: after[id].x, y: after[id].y, ..objects[id] })
            &&& forall|i: int| 0 <= i < objects.len() && i != id ==> after[i] == objects[i]
        }),
{
    let x = objects[id].x + dx;
    let y = objects[id].y + dy;
    assert(map.in_bounds(x, y));
    if !blocked_at(map, objects, x, y) {
        assert(!map.tile(x, y).blocked);
        assert(map.interior(x, y));
    }
}

/// The monsters' part of a turn: they act if the player's action took the
/// turn and the player is alive, and not otherwise.
pub fn monsters_turn(action: PlayerAction, game: &mut Game, objects: &mut [Object], fov: &FovMap) -> (acted:
    bool)
    requires
        arranged(old(game), old(objects)@),
        old(objects)@[PLAYER as int].alive && action == PlayerAction::TookTurn ==> can_run_ai(
            old(game),
            old(objects)@,
        ),
    ensures
        acted == (old(objects)@[PLAYER as int].alive && action == PlayerAction::TookTurn),
        arranged(final(game), final(objects)@),
        final(game).map == old(game).map,
        final(game).inventory == old(game).inventory,
        final(game).dungeon_level == old(game).dungeon_level,
        old(game).log@.is_prefix_of(final(game).log@),
        final(objects)@.len() == old(objects)@.len(),
        !acted ==> final(objects)@ == old(objects)@ && final(game).log == old(game).log,
        acted ==> turns_taken(
            &old(game).map,
            fov,
            old(game).inventory@,
            old(objects)@,
            old(game).log@,
            final(objects)@,
            final(game).log@,
            old(objects)@.len() as int,
        ),
        acted ==> forall|i: int|
            0 <= i < old(objects)@.len() ==> (#[trigger] final(objects)@[i]).ai == next_ai(
                old(objects)@[i].ai,
            ),
{
    if objects[PLAYER].alive && action == PlayerAction::TookTurn {
        run_ai_turns(game, objects, fov);
        true
    } else {
        false
    }
}

} // verus!
