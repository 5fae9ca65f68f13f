use vstd::prelude::*;

verus! {

/// One cell of the level grid.
#[derive(Clone, Copy, Debug, PartialEq, Eq, Structural)]
pub struct Tile {
    pub blocked: bool,
    pub block_sight: bool,
    pub explored: bool,
    pub lit: bool,
}

impl Tile {
    /// Open floor.
    #[verifier::allow_in_spec]
    pub fn empty() -> Tile
        returns
            (Tile { blocked: false, block_sight: false, explored: false, lit: false }),
    {
        Tile { blocked: false, block_sight: false, explored: false, lit: false }
    }

    /// Solid rock: it stops both movement and sight.
    #[verifier::allow_in_spec]
    pub fn wall() -> Tile
        returns
            (Tile { blocked: true, block_sight: true, explored: false, lit: false }),
    {
        Tile { blocked: true, block_sight: true, explored: false, lit: false }
    }
}

/// Half of `n`, rounded towards zero.
pub open spec fn half(n: int) -> int {
    if n >= 0 {
        n / 2
    } else {
        -((-n) / 2)
    }
}

/// Half of the sum of `a` and `b`, rounded towards zero.
pub(crate) fn midpoint(a: i32, b: i32) -> (m: i32)
    ensures
        m == half(a + b),
{
    let sum: i64 = a as i64 + b as i64;
    if sum >= 0 {
        (sum / 2) as i32
    } else {
        (-((-sum) / 2)) as i32
    }
}

/// A room's bounding rectangle. The ring of tiles on its boundary
/// (`x == x1`, `x == x2`, `y == y1` or `y == y2`) stays wall; the floor is
/// what lies strictly inside.
#[derive(Clone, Copy, Debug, PartialEq, Eq, Structural)]
pub struct Rect {
    pub x1: i32,
    pub y1: i32,
    pub x2: i32,
    pub y2: i32,
}

impl Rect {
    /// The tile `(x, y)` lies in the rectangle, boundary included.
    pub open spec fn contains(&self, x: int, y: int) -> bool {
        self.x1 <= x <= self.x2 && self.y1 <= y <= self.y2
    }

    /// The tile `(x, y)` is floor of the room: strictly inside the boundary.
    pub open spec fn contains_floor(&self, x: int, y: int) -> bool {
        self.x1 < x < self.x2 && self.y1 < y < self.y2
    }

    /// The closed rectangles share at least one tile.
    pub open spec fn overlaps(&self, other: &Rect) -> bool {
        self.x1 <= other.x2 && self.x2 >= other.x1 && self.y1 <= other.y2 && self.y2 >= other.y1
    }

    /// Column of the tile in the middle.
    pub open spec fn center_x(&self) -> int {
        half(self.x1 + self.x2)
    }

    /// Row of the tile in the middle.
    pub open spec fn center_y(&self) -> int {
        half(self.y1 + self.y2)
    }

    /// The rectangle with top-left corner `(x, y)` that spans `w` columns
    /// and `h` rows beyond it.
    pub fn new(x: i32, y: i32, w: i32, h: i32) -> (r: Rect)
        requires
            i32::MIN <= x + w <= i32::MAX,
            i32::MIN <= y + h <= i32::MAX,
        ensures
            r == (Rect { x1: x, y1: y, x2: (x + w) as i32, y2: (y + h) as i32 }),
    {
        Rect { x1: x, y1: y, x2: x + w, y2: y + h }
    }

    /// The tile in the middle of the rectangle.
    pub fn center(&self) -> (c: (i32, i32))
        ensures
            c.0 == self.center_x(),
            c.1 == self.center_y(),
    {
        (midpoint(self.x1, self.x2), midpoint(self.y1, self.y2))
    }

    /// Whether the two rectangles, boundaries included, have a tile in
    /// common. Rooms that merely touch count as intersecting, so that two
    /// rooms never share a wall.
    pub fn intersects_with(&self, other: &Rect) -> (b: bool)
        ensures
            b == self.overlaps(other),
    {
        (self.x1 <= other.x2) && (self.x2 >= other.x1) && (self.y1 <= other.y2) && (self.y2
            >= other.y1)
    }
}

/// Two rectangles that are not empty overlap exactly when some tile lies in
/// both of them.
pub proof fn lemma_overlap_is_shared_tile(a: Rect, b: Rect)
    requires
        a.x1 <= a.x2,
        a.y1 <= a.y2,
        b.x1 <= b.x2,
        b.y1 <= b.y2,
    ensures
        a.overlaps(&b) <==> exists|x: int, y: int| a.contains(x, y) && b.contains(x, y),
{
    if a.overlaps(&b) {
        let x: int = if a.x1 >= b.x1 { a.x1 as int } else { b.x1 as int };
        let y: int = if a.y1 >= b.y1 { a.y1 as int } else { b.y1 as int };
        assert(a.contains(x, y) && b.contains(x, y));
    }
}

/// The level grid, stored column by column: `tiles[x][y]`.
#[derive(Clone, Debug)]
pub struct LevelMap {
    pub tiles: Vec<Vec<Tile>>,
}

impl LevelMap {
    /// Number of columns.
    pub open spec fn width(&self) -> int {
        self.tiles@.len() as int
    }

    /// Number of rows: the length of the first column.
    pub open spec fn height(&self) -> int {
        if self.tiles@.len() > 0 {
            self.tiles@[0]@.len() as int
        } else {
            0
        }
    }

    /// The grid is a non-empty rectangle whose sides fit in an `i32`.
    pub open spec fn wf(&self) -> bool {
        &&& 1 <= self.width() <= i32::MAX
        &&& 1 <= self.height() <= i32::MAX
        &&& forall|x: int| 0 <= x < self.width() ==> (#[trigger] self.tiles@[x])@.len() == self.height()
    }

    /// `(x, y)` names a cell of the grid.
    pub open spec fn in_bounds(&self, x: int, y: int) -> bool {
        0 <= x < self.width() && 0 <= y < self.height()
    }

    /// The tile at `(x, y)`; meaningful only in bounds.
    pub open spec fn tile(&self, x: int, y: int) -> Tile {
        self.tiles@[x]@[y]
    }

    /// `(x, y)` is in bounds and nothing in the terrain stops movement there.
    pub open spec fn open_at(&self, x: int, y: int) -> bool {
        self.in_bounds(x, y) && !self.tile(x, y).blocked
    }

    /// `(x, y)` and its eight neighbours are all in bounds.
    pub open spec fn interior(&self, x: int, y: int) -> bool {
        1 <= x <= self.width() - 2 && 1 <= y <= self.height() - 2
    }

    /// Every tile on the rim of the grid is blocked, so that nothing that
    /// walks on open tiles can leave the grid.
    pub open spec fn enclosed(&self) -> bool {
        forall|x: int, y: int|
            self.in_bounds(x, y) && !self.interior(x, y) ==> (#[trigger] self.tile(x, y)).blocked
    }

    /// `other` has the same shape and is open wherever `self` is.
    pub open spec fn opens_into(&self, other: &LevelMap) -> bool {
        &&& other.width() == self.width()
        &&& other.height() == self.height()
        &&& forall|x: int, y: int| self.open_at(x, y) ==> #[trigger] other.open_at(x, y)
    }

    /// A grid of `width` columns and `height` rows, every cell a copy of
    /// `tile`.
    pub fn filled(width: i32, height: i32, tile: Tile) -> (map: LevelMap)
        requires
            width >= 1,
            height >= 1,
        ensures
            map.wf(),
            map.width() == width,
            map.height() == height,
            forall|x: int, y: int| map.in_bounds(x, y) ==> #[trigger] map.tile(x, y) == tile,
    {
        let mut tiles: Vec<Vec<Tile>> = Vec::new();
        let mut x: i32 = 0;
        while x < width
            invariant
                0 <= x <= width,
                height >= 1,
                tiles@.len() == x,
                forall|i: int| 0 <= i < x ==> (#[trigger] tiles@[i])@.len() == height,
                forall|i: int, j: int| 0 <= i < x && 0 <= j < height ==> tiles@[i]@[j] == tile,
            decreases width - x,
        {
            let mut column: Vec<Tile> = Vec::new();
            let mut y: i32 = 0;
            while y < height
                invariant
                    0 <= y <= height,
                    column@.len() == y,
                    forall|j: int| 0 <= j < y ==> column@[j] == tile,
                decreases height - y,
            {
                column.push(tile);
                y = y + 1;
            }
            tiles.push(column);
            x = x + 1;
        }
        LevelMap { tiles }
    }

    /// Number of columns.
    pub fn columns(&self) -> (w: i32)
        requires
            self.wf(),
        ensures
            w == self.width(),
    {
        self.tiles.len() as i32
    }

    /// Number of rows.
    pub fn rows(&self) -> (h: i32)
        requires
            self.wf(),
        ensures
            h == self.height(),
    {
        self.tiles[0].len() as i32
    }

    /// Whether `(x, y)` names a cell of the grid.
    pub fn contains(&self, x: i32, y: i32) -> (b: bool)
        requires
            self.wf(),
        ensures
            b == self.in_bounds(x as int, y as int),
    {
        x >= 0 && y >= 0 && (x as usize) < self.tiles.len() && (y as usize) < self.tiles[0].len()
    }

    /// The tile at `(x, y)`.
    pub fn get(&self, x: i32, y: i32) -> (t: Tile)
        requires
            self.wf(),
            self.in_bounds(x as int, y as int),
        ensures
            t == self.tile(x as int, y as int),
    {
        self.tiles[x as usize][y as usize]
    }

    /// Replaces the tile at `(x, y)` and nothing else.
    pub fn set(&mut self, x: i32, y: i32, tile: Tile)
        requires
            old(self).wf(),
            old(self).in_bounds(x as int, y as int),
        ensures
            final(self).wf(),
            final(self).width() == old(self).width(),
            final(self).height() == old(self).height(),
            final(self).tile(x as int, y as int) == tile,
            forall|i: int, j: int|
                old(self).in_bounds(i, j) && !(i == x && j == y) ==> #[trigger] final(self).tile(i, j)
                    == old(self).tile(i, j),
    {
        self.tiles[x as usize][y as usize] = tile;
    }
}

} // verus!
