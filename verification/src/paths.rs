use vstd::prelude::*;
use crate::tile::{LevelMap, Tile};

verus! {

/// Two positions are neighbours along a row or a column.
pub open spec fn adjacent(a: (int, int), b: (int, int)) -> bool {
    ||| a.0 == b.0 && (a.1 - b.1 == 1 || b.1 - a.1 == 1)
    ||| a.1 == b.1 && (a.0 - b.0 == 1 || b.0 - a.0 == 1)
}

/// `steps` is a walk over open tiles: it is not empty, each of its
/// positions is open, and each is a neighbour of the one before.
pub open spec fn is_path(map: &LevelMap, steps: Seq<(int, int)>) -> bool {
    &&& steps.len() >= 1
    &&& forall|i: int| 0 <= i < steps.len() ==> map.open_at((#[trigger] steps[i]).0, steps[i].1)
    &&& forall|i: int| 0 <= i < steps.len() - 1 ==> adjacent(#[trigger] steps[i], steps[i + 1])
}

/// A walk over open tiles leads from `a` to `b`.
pub open spec fn connected(map: &LevelMap, a: (int, int), b: (int, int)) -> bool {
    exists|steps: Seq<(int, int)>| #[trigger]
        is_path(map, steps) && steps.first() == a && steps.last() == b
}

impl LevelMap {
    /// This grid is `old` with some tiles away from the rim turned into
    /// open floor.
    pub open spec fn carved_from(&self, old: &LevelMap) -> bool {
        &&& self.width() == old.width()
        &&& self.height() == old.height()
        &&& forall|x: int, y: int|
            self.in_bounds(x, y) ==> #[trigger] self.tile(x, y) == old.tile(x, y) || (self.tile(
                x,
                y,
            ) == Tile::empty() && self.interior(x, y))
    }

    /// Every tile is either solid rock or open floor.
    pub open spec fn rock_and_floor(&self) -> bool {
        forall|x: int, y: int|
            self.in_bounds(x, y) ==> #[trigger] self.tile(x, y) == Tile::wall() || self.tile(x, y)
                == Tile::empty()
    }
}

/// Carving keeps open what was open, keeps the rim closed, and leaves only
/// rock and floor where there was only rock and floor.
pub proof fn lemma_carving(old: &LevelMap, new: &LevelMap)
    requires
        new.carved_from(old),
    ensures
        old.opens_into(new),
        old.enclosed() ==> new.enclosed(),
        old.rock_and_floor() ==> new.rock_and_floor(),
{
    assert forall|x: int, y: int| old.open_at(x, y) implies #[trigger] new.open_at(x, y) by {
        let t = new.tile(x, y);
    }
    if old.enclosed() {
        assert forall|x: int, y: int| new.in_bounds(x, y) && !new.interior(x, y) implies (
        #[trigger] new.tile(x, y)).blocked by {
            let t = old.tile(x, y);
        }
    }
    if old.rock_and_floor() {
        assert forall|x: int, y: int| new.in_bounds(x, y) implies #[trigger] new.tile(x, y)
            == Tile::wall() || new.tile(x, y) == Tile::empty() by {
            let t = old.tile(x, y);
        }
    }
}

/// An open tile is connected to itself.
pub proof fn lemma_connected_here(map: &LevelMap, a: (int, int))
    requires
        map.open_at(a.0, a.1),
    ensures
        connected(map, a, a),
{
    let steps = seq![a];
    assert(is_path(map, steps));
    assert(steps.first() == a && steps.last() == a);
}

/// Walks can be joined end to end.
pub proof fn lemma_connected_onwards(map: &LevelMap, a: (int, int), b: (int, int), c: (int, int))
    requires
        connected(map, a, b),
        connected(map, b, c),
    ensures
        connected(map, a, c),
{
    let first = choose|steps: Seq<(int, int)>| #[trigger]
        is_path(map, steps) && steps.first() == a && steps.last() == b;
    let second = choose|steps: Seq<(int, int)>| #[trigger]
        is_path(map, steps) && steps.first() == b && steps.last() == c;
    let joined = first + second.drop_first();
    assert forall|i: int| 0 <= i < joined.len() implies map.open_at(
        (#[trigger] joined[i]).0,
        joined[i].1,
    ) by {
        if i < first.len() {
            assert(joined[i] == first[i]);
        } else {
            assert(joined[i] == second[i - first.len() + 1]);
        }
    }
    assert forall|i: int| 0 <= i < joined.len() - 1 implies adjacent(
        #[trigger] joined[i],
        joined[i + 1],
    ) by {
        if i < first.len() - 1 {
            assert(joined[i] == first[i]);
            assert(joined[i + 1] == first[i + 1]);
        } else if i == first.len() - 1 {
            assert(joined[i] == first[i]);
            assert(first[i] == second[0]);
            assert(joined[i + 1] == second[1]);
            assert(adjacent(second[0], second[0int + 1]));
        } else {
            assert(joined[i] == second[i - first.len() + 1]);
            assert(joined[i + 1] == second[i - first.len() + 1 + 1]);
        }
    }
    assert(is_path(map, joined));
    assert(joined.first() == a);
    if second.len() == 1 {
        assert(joined =~= first);
        assert(b == c);
    } else {
        assert(joined.last() == second.last());
    }
    assert(joined.last() == c);
}

/// A walk stays a walk when more of the grid is opened.
pub proof fn lemma_connected_still(old: &LevelMap, new: &LevelMap, a: (int, int), b: (int, int))
    requires
        old.opens_into(new),
        connected(old, a, b),
    ensures
        connected(new, a, b),
{
    let steps = choose|steps: Seq<(int, int)>| #[trigger]
        is_path(old, steps) && steps.first() == a && steps.last() == b;
    assert forall|i: int| 0 <= i < steps.len() implies new.open_at(
        (#[trigger] steps[i]).0,
        steps[i].1,
    ) by {
        assert(old.open_at(steps[i].0, steps[i].1));
    }
    assert(is_path(new, steps));
}

/// A stretch of a row that is open throughout connects its two ends.
pub proof fn lemma_row_connected(map: &LevelMap, from_x: int, to_x: int, y: int)
    requires
        forall|x: int|
            (from_x <= x <= to_x || to_x <= x <= from_x) ==> #[trigger] map.open_at(x, y),
    ensures
        connected(map, (from_x, y), (to_x, y)),
    decreases
            if from_x <= to_x {
                to_x - from_x
            } else {
                from_x - to_x
            },
{
    assert(map.open_at(from_x, y));
    if from_x == to_x {
        lemma_connected_here(map, (from_x, y));
    } else {
        let before: int = if from_x < to_x {
            to_x - 1
        } else {
            to_x + 1
        };
        lemma_row_connected(map, from_x, before, y);
        assert(map.open_at(before, y));
        assert(map.open_at(to_x, y));
        let last_step = seq![(before, y), (to_x, y)];
        assert(is_path(map, last_step));
        assert(last_step.first() == (before, y) && last_step.last() == (to_x, y));
        lemma_connected_onwards(map, (from_x, y), (before, y), (to_x, y));
    }
}

/// A stretch of a column that is open throughout connects its two ends.
pub proof fn lemma_column_connected(map: &LevelMap, x: int, from_y: int, to_y: int)
    requires
        forall|y: int|
            (from_y <= y <= to_y || to_y <= y <= from_y) ==> #[trigger] map.open_at(x, y),
    ensures
        connected(map, (x, from_y), (x, to_y)),
    decreases
            if from_y <= to_y {
                to_y - from_y
            } else {
                from_y - to_y
            },
{
    assert(map.open_at(x, from_y));
    if from_y == to_y {
        lemma_connected_here(map, (x, from_y));
    } else {
        let before: int = if from_y < to_y {
            to_y - 1
        } else {
            to_y + 1
        };
        lemma_column_connected(map, x, from_y, before);
        assert(map.open_at(x, before));
        assert(map.open_at(x, to_y));
        let last_step = seq![(x, before), (x, to_y)];
        assert(is_path(map, last_step));
        assert(last_step.first() == (x, before) && last_step.last() == (x, to_y));
        lemma_connected_onwards(map, (x, from_y), (x, before), (x, to_y));
    }
}

} // verus!
