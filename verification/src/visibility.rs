use vstd::prelude::*;
use crate::config::Config;
use crate::entity::{Object, PLAYER};
use crate::fov::FovMap;
use crate::session::Game;
use crate::tile::{LevelMap, Tile};

verus! {

/// A source of light: where it stands and how far it shines.
#[derive(Clone, Copy, Debug, PartialEq, Eq, Structural)]
pub struct LightSource {
    pub x: i32,
    pub y: i32,
    pub radius: i32,
}

/// The light sources among the objects, in the order of the objects.
pub open spec fn light_sources(objects: Seq<Object>) -> Seq<LightSource>
    decreases objects.len(),
{
    if objects.len() == 0 {
        Seq::empty()
    } else {
        let rest = light_sources(objects.drop_last());
        match objects.last().emitter {
            Some(e) => rest.push(
                LightSource { x: objects.last().x, y: objects.last().y, radius: e.radius },
            ),
            None => rest,
        }
    }
}

/// Lists the light sources among the objects. Each of them needs a field
/// of view of its own, computed from where it stands with its radius.
pub fn emitters(objects: &[Object]) -> (sources: Vec<LightSource>)
    ensures
        sources@ == light_sources(objects@),
{
    let mut sources: Vec<LightSource> = Vec::new();
    let mut i: usize = 0;
    assert(objects@.subrange(0, 0) =~= Seq::<Object>::empty());
    while i < objects.len()
        invariant
            i <= objects@.len(),
            sources@ == light_sources(objects@.subrange(0, i as int)),
        decreases objects@.len() - i,
    {
        assert(objects@.subrange(0, i + 1).drop_last() =~= objects@.subrange(0, i as int));
        match objects[i].emitter {
            Some(e) => {
                sources.push(LightSource { x: objects[i].x, y: objects[i].y, radius: e.radius });
            },
            None => {},
        }
        i = i + 1;
    }
    assert(objects@.subrange(0, i as int) =~= objects@);
    sources
}

/// Some light source shines on `(x, y)`.
pub open spec fn in_light(fovs: Seq<FovMap>, x: int, y: int) -> bool {
    exists|e: int| 0 <= e < fovs.len() && (#[trigger] fovs[e]).visible(x, y)
}

/// A tile after visibility has been recomputed. It is lit exactly if some
/// light shines on it now, and it is explored if it was explored before,
/// or the player sees it, or it is lit. Nothing else about it changes.
pub open spec fn seen_tile(tile: Tile, in_fov: bool, lit: bool) -> Tile {
    Tile { lit: lit, explored: tile.explored || in_fov || lit, ..tile }
}

/// A tile after a series of recomputations; each step says whether the
/// player saw the tile then and whether light shone on it.
pub open spec fn seen_through(tile: Tile, steps: Seq<(bool, bool)>) -> Tile
    decreases steps.len(),
{
    if steps.len() == 0 {
        tile
    } else {
        seen_tile(seen_through(tile, steps.drop_last()), steps.last().0, steps.last().1)
    }
}

/// Exploration is for good and light is not. A tile that was explored, or
/// that the player saw or light shone upon at any step, is explored after
/// all the steps, whatever came later. It is lit after the last step
/// exactly if light shone on it at that step. What blocks movement and
/// sight never changes.
pub proof fn lemma_explored_stays_lit_does_not(tile: Tile, steps: Seq<(bool, bool)>)
    ensures
        tile.explored ==> seen_through(tile, steps).explored,
        forall|i: int|
            0 <= i < steps.len() && ((#[trigger] steps[i]).0 || steps[i].1) ==> seen_through(
                tile,
                steps,
            ).explored,
        steps.len() > 0 ==> seen_through(tile, steps).lit == steps.last().1,
        seen_through(tile, steps).blocked == tile.blocked,
        seen_through(tile, steps).block_sight == tile.block_sight,
    decreases steps.len(),
{
    if steps.len() > 0 {
        let earlier = steps.drop_last();
        lemma_explored_stays_lit_does_not(tile, earlier);
        assert forall|i: int|
            0 <= i < steps.len() && ((#[trigger] steps[i]).0 || steps[i].1) implies seen_through(
            tile,
            steps,
        ).explored by {
            if i < earlier.len() {
                assert(earlier[i] == steps[i]);
            }
        }
    }
}

fn any_in_fov(fovs: &Vec<FovMap>, x: i32, y: i32) -> (lit: bool)
    ensures
        lit == in_light(fovs@, x as int, y as int),
{
    let mut e: usize = 0;
    while e < fovs.len()
        invariant
            e <= fovs@.len(),
            forall|k: int| 0 <= k < e ==> !(#[trigger] fovs@[k]).visible(x as int, y as int),
        decreases fovs@.len() - e,
    {
        if fovs[e].is_in_fov(x, y) {
            return true;
        }
        e = e + 1;
    }
    false
}

/// Brings the lighting and the exploration of the level up to date, given
/// the player's field of view and one field of view per light source.
/// Every tile is lit exactly if it lies in the field of view of some light
/// source, and becomes explored if the player sees it or it is lit.
pub fn recompute_visibility(game: &mut Game, player_fov: &FovMap, emitter_fovs: &Vec<FovMap>)
    requires
        old(game).map.wf(),
    ensures
        final(game).map.wf(),
        final(game).map.width() == old(game).map.width(),
        final(game).map.height() == old(game).map.height(),
        forall|x: int, y: int|
            old(game).map.in_bounds(x, y) ==> #[trigger] final(game).map.tile(x, y) == seen_tile(
                old(game).map.tile(x, y),
                player_fov.visible(x, y),
                in_light(emitter_fovs@, x, y),
            ),
        final(game).log == old(game).log,
        final(game).inventory == old(game).inventory,
        final(game).dungeon_level == old(game).dungeon_level,
{
    let width: i32 = game.map.columns();
    let height: i32 = game.map.rows();
    let mut y: i32 = 0;
    while y < height
        invariant
            0 <= y <= height,
            game.map.wf(),
            width == old(game).map.width(),
            height == old(game).map.height(),
            game.map.width() == width,
            game.map.height() == height,
            game.log == old(game).log,
            game.inventory == old(game).inventory,
            game.dungeon_level == old(game).dungeon_level,
            forall|i: int, j: int|
                game.map.in_bounds(i, j) ==> #[trigger] game.map.tile(i, j) == if j < y {
                    seen_tile(
                        old(game).map.tile(i, j),
                        player_fov.visible(i, j),
                        in_light(emitter_fovs@, i, j),
                    )
                } else {
                    old(game).map.tile(i, j)
                },
        decreases height - y,
    {
        let mut x: i32 = 0;
        while x < width
            invariant
                0 <= x <= width,
                0 <= y < height,
                game.map.wf(),
                width == old(game).map.width(),
                height == old(game).map.height(),
                game.map.width() == width,
                game.map.height() == height,
                game.log == old(game).log,
                game.inventory == old(game).inventory,
                game.dungeon_level == old(game).dungeon_level,
                forall|i: int, j: int|
                    game.map.in_bounds(i, j) ==> #[trigger] game.map.tile(i, j) == if j < y || (j
                        == y && i < x) {
                        seen_tile(
                            old(game).map.tile(i, j),
                            player_fov.visible(i, j),
                            in_light(emitter_fovs@, i, j),
                        )
                    } else {
                        old(game).map.tile(i, j)
                    },
            decreases width - x,
        {
            let lit = any_in_fov(emitter_fovs, x, y);
            let visible = player_fov.is_in_fov(x, y);
            let tile = game.map.get(x, y);
            game.map.set(
                x,
                y,
                Tile { lit: lit, explored: tile.explored || visible || lit, ..tile },
            );
            x = x + 1;
        }
        y = y + 1;
    }
}

/// The object may be drawn: the player sees it, or it stands in the
/// light, or it is of the kind that stays on the map once its tile has
/// been explored.
pub open spec fn drawable(o: Object, map: &LevelMap, fov: &FovMap) -> bool {
    ||| fov.visible(o.x as int, o.y as int)
    ||| map.tile(o.x as int, o.y as int).lit
    ||| (o.always_visible && map.tile(o.x as int, o.y as int).explored)
}

/// Whether the object may be drawn.
pub fn is_drawable(o: &Object, map: &LevelMap, fov: &FovMap) -> (b: bool)
    requires
        map.wf(),
        map.in_bounds(o.x as int, o.y as int),
    ensures
        b == drawable(*o, map, fov),
{
    let tile = map.get(o.x, o.y);
    fov.is_in_fov(o.x, o.y) || tile.lit || (o.always_visible && tile.explored)
}

/// The indices below `count` of the objects that may be drawn and that
/// block, or do not block, as `blocking` says; in rising order.
pub open spec fn drawn_of_kind(
    objects: Seq<Object>,
    map: &LevelMap,
    fov: &FovMap,
    blocking: bool,
    count: int,
) -> Seq<usize>
    decreases count,
{
    if count <= 0 {
        Seq::empty()
    } else {
        let rest = drawn_of_kind(objects, map, fov, blocking, count - 1);
        if drawable(objects[count - 1], map, fov) && objects[count - 1].blocks == blocking {
            rest.push((count - 1) as usize)
        } else {
            rest
        }
    }
}

/// The order in which the objects are drawn: those that may be drawn and
/// do not block first, then those that block, so that whoever can stand
/// on a thing is drawn over it; each group in the order of the objects.
pub open spec fn drawing_order(objects: Seq<Object>, map: &LevelMap, fov: &FovMap) -> Seq<usize> {
    drawn_of_kind(objects, map, fov, false, objects.len() as int) + drawn_of_kind(
        objects,
        map,
        fov,
        true,
        objects.len() as int,
    )
}

fn collect_drawn(
    objects: &[Object],
    map: &LevelMap,
    fov: &FovMap,
    blocking: bool,
    order: &mut Vec<usize>,
)
    requires
        map.wf(),
        forall|i: int|
            0 <= i < objects@.len() ==> map.in_bounds(
                (#[trigger] objects@[i]).x as int,
                objects@[i].y as int,
            ),
    ensures
        final(order)@ == old(order)@ + drawn_of_kind(
            objects@,
            map,
            fov,
            blocking,
            objects@.len() as int,
        ),
{
    let mut i: usize = 0;
    assert(order@ =~= old(order)@ + drawn_of_kind(objects@, map, fov, blocking, 0));
    while i < objects.len()
        invariant
            i <= objects@.len(),
            map.wf(),
            forall|k: int|
                0 <= k < objects@.len() ==> map.in_bounds(
                    (#[trigger] objects@[k]).x as int,
                    objects@[k].y as int,
                ),
            order@ == old(order)@ + drawn_of_kind(objects@, map, fov, blocking, i as int),
        decreases objects@.len() - i,
    {
        assert(map.in_bounds(objects@[i as int].x as int, objects@[i as int].y as int));
        if is_drawable(&objects[i], map, fov) && objects[i].blocks == blocking {
            order.push(i);
        }
        assert(order@ =~= old(order)@ + drawn_of_kind(objects@, map, fov, blocking, i + 1));
        i = i + 1;
    }
}

/// Lists the objects to draw, in the order in which to draw them.
pub fn draw_order(objects: &[Object], map: &LevelMap, fov: &FovMap) -> (order: Vec<usize>)
    requires
        map.wf(),
        forall|i: int|
            0 <= i < objects@.len() ==> map.in_bounds(
                (#[trigger] objects@[i]).x as int,
                objects@[i].y as int,
            ),
    ensures
        order@ == drawing_order(objects@, map, fov),
{
    let mut order: Vec<usize> = Vec::new();
    collect_drawn(objects, map, fov, false, &mut order);
    collect_drawn(objects, map, fov, true, &mut order);
    order
}

/// The player's sight radius for the next turn: on a lit tile the radius
/// for lit places, elsewhere one more than now, but no more than the eyes
/// adapt to in the dark.
pub open spec fn adapted_radius(radius: i32, on_lit_tile: bool, config: &Config) -> i32 {
    if on_lit_tile {
        config.torch_radius_in_lit_area
    } else if radius + 1 > config.torch_radius_in_dark_area {
        config.torch_radius_in_dark_area
    } else {
        (radius + 1) as i32
    }
}

/// Adapts the player's sight radius to the light on the player's tile.
pub fn update_fov_radius(objects: &mut [Object], game: &Game, config: &Config)
    requires
        old(objects)@.len() >= 1,
        game.map.wf(),
        game.map.in_bounds(
            old(objects)@[PLAYER as int].x as int,
            old(objects)@[PLAYER as int].y as int,
        ),
    ensures
        final(objects)@ == old(objects)@.update(
            PLAYER as int,
            Object {
                fov_radius: adapted_radius(
                    old(objects)@[PLAYER as int].fov_radius,
                    game.map.tile(
                        old(objects)@[PLAYER as int].x as int,
                        old(objects)@[PLAYER as int].y as int,
                    ).lit,
                    config,
                ),
                ..old(objects)@[PLAYER as int]
            },
        ),
{
    let lit = game.map.get(objects[PLAYER].x, objects[PLAYER].y).lit;
    let radius: i32 = objects[PLAYER].fov_radius;
    let adapted: i32 = if lit {
        config.torch_radius_in_lit_area
    } else if radius >= config.torch_radius_in_dark_area {
        config.torch_radius_in_dark_area
    } else {
        radius + 1
    };
    objects[PLAYER].fov_radius = adapted;
    assert(objects@ =~= old(objects)@.update(
        PLAYER as int,
        Object { fov_radius: adapted, ..old(objects)@[PLAYER as int] },
    ));
}

/// Whether visibility has to be recomputed before the next frame: the
/// player is not where the last computation was made from, or there has
/// been none since the level was entered.
pub fn needs_recompute(computed_from: Option<(i32, i32)>, objects: &[Object]) -> (b: bool)
    requires
        objects@.len() >= 1,
    ensures
        b == (computed_from != Some((objects@[PLAYER as int].x, objects@[PLAYER as int].y))),
{
    match computed_from {
        Some((x, y)) => x != objects[PLAYER].x || y != objects[PLAYER].y,
        None => true,
    }
}

/// Where visibility counts as computed from once an action has been
/// carried out: nowhere if the action has led to another dungeon level,
/// which forces a recomputation on the level entered, and where it was
/// computed from otherwise.
pub fn after_action(computed_from: Option<(i32, i32)>, level_before: u32, game: &Game) -> (now:
    Option<(i32, i32)>)
    ensures
        now == if game.dungeon_level != level_before {
            None
        } else {
            computed_from
        },
{
    if game.dungeon_level != level_before {
        None
    } else {
        computed_from
    }
}

} // verus!
