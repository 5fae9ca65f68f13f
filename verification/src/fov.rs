use vstd::prelude::*;

verus! {

/// A field of view: for each cell of a grid, whether it can be seen from
/// the origin the field was computed for. `cells[x][y]` is the flag of
/// `(x, y)`; whatever lies outside the grid is not visible.
#[derive(Clone, Debug)]
pub struct FovMap {
    pub cells: Vec<Vec<bool>>,
}

impl FovMap {
    /// `(x, y)` is in the field of view.
    pub open spec fn visible(&self, x: int, y: int) -> bool {
        &&& 0 <= x < self.cells@.len()
        &&& 0 <= y < self.cells@[x]@.len()
        &&& self.cells@[x]@[y]
    }

    /// A field of view in which nothing is visible.
    pub fn dark() -> (fov: FovMap)
        ensures
            forall|x: int, y: int| !fov.visible(x, y),
    {
        FovMap { cells: Vec::new() }
    }

    /// A field of view from its grid of flags.
    pub fn from_cells(cells: Vec<Vec<bool>>) -> (fov: FovMap)
        ensures
            fov.cells == cells,
    {
        FovMap { cells }
    }

    /// Whether `(x, y)` is in the field of view.
    pub fn is_in_fov(&self, x: i32, y: i32) -> (b: bool)
        ensures
            b == self.visible(x as int, y as int),
    {
        if x < 0 || y < 0 {
            return false;
        }
        if x as usize >= self.cells.len() {
            return false;
        }
        if y as usize >= self.cells[x as usize].len() {
            return false;
        }
        self.cells[x as usize][y as usize]
    }
}

} // verus!
