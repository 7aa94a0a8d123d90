//! Cells and the grid that bounds them.

use vstd::prelude::*;

verus! {

/// One cell of the grid: its column, then its row, both counted from zero.
#[derive(Clone, Copy, Debug, PartialEq, Eq, Structural)]
pub struct SnakePiece(pub u32, pub u32);

/// The playing field: `cols` columns by `rows` rows of unit cells.
#[derive(Clone, Copy, Debug, PartialEq, Eq, Structural)]
pub struct Grid {
    pub cols: u32,
    pub rows: u32,
}

impl SnakePiece {
    /// `self` comes before `other` in reading order: row by row from the
    /// top, and from left to right within a row.
    pub open spec fn precedes(self, other: SnakePiece) -> bool {
        self.1 < other.1 || (self.1 == other.1 && self.0 < other.0)
    }

    /// `self` and `other` are neighbours: one step apart along a row or along
    /// a column.
    pub open spec fn touches(self, other: SnakePiece) -> bool {
        ||| self.1 == other.1 && (self.0 + 1 == other.0 || other.0 + 1 == self.0)
        ||| self.0 == other.0 && (self.1 + 1 == other.1 || other.1 + 1 == self.1)
    }
}

/// Each cell of `cells` is a neighbour of the one before it.
pub open spec fn is_chain(cells: Seq<SnakePiece>) -> bool {
    forall|i: int| 0 <= i < cells.len() - 1 ==> (#[trigger] cells[i]).touches(cells[i + 1])
}

/// Each cell of `cells` lies on the grid.
pub open spec fn all_on_grid(cells: Seq<SnakePiece>, grid: Grid) -> bool {
    forall|i: int| 0 <= i < cells.len() ==> grid.contains(#[trigger] cells[i])
}

impl Grid {
    /// The point `(x, y)` lies on the grid.
    pub open spec fn holds(&self, x: int, y: int) -> bool {
        0 <= x < self.cols && 0 <= y < self.rows
    }

    /// The cell lies on the grid.
    pub open spec fn contains(&self, cell: SnakePiece) -> bool {
        self.holds(cell.0 as int, cell.1 as int)
    }

    /// A grid of the given size.
    pub fn new(cols: u32, rows: u32) -> (grid: Grid)
        ensures
            grid.cols == cols,
            grid.rows == rows,
    {
        Grid { cols, rows }
    }

    /// Whether the cell lies on the grid.
    pub fn in_bounds(&self, cell: SnakePiece) -> (inside: bool)
        ensures
            inside == self.contains(cell),
    {
        cell.0 < self.cols && cell.1 < self.rows
    }
}

} // verus!
