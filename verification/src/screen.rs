//! What a frame shows: the squares, in pixels, that stand for the cells.

use vstd::prelude::*;
use crate::grid::SnakePiece;

verus! {

/// A square on the screen: its top left corner and the length of its side,
/// in pixels.
#[derive(Clone, Copy, Debug, PartialEq, Eq, Structural)]
pub struct Square {
    pub x: u64,
    pub y: u64,
    pub side: u32,
}

/// One frame: the squares of the snake, head first, and the square of the
/// food, which is drawn over them.
#[derive(Debug)]
pub struct Frame {
    pub snake: Vec<Square>,
    pub food: Square,
}

impl Square {
    /// The square that shows `cell` where a cell is `width` pixels wide.
    pub open spec fn at(cell: SnakePiece, width: u32) -> Square {
        Square { x: (cell.0 * width) as u64, y: (cell.1 * width) as u64, side: width }
    }

    /// The square that shows `cell` where a cell is `width` pixels wide: the
    /// cell's column and row, each times `width`, with `width` as its side.
    pub fn of(cell: SnakePiece, width: u32) -> (square: Square)
        ensures
            square == Square::at(cell, width),
            square.x == cell.0 * width,
            square.y == cell.1 * width,
            square.side == width,
    {
        assert(cell.0 * width <= u64::MAX && cell.1 * width <= u64::MAX) by (nonlinear_arith)
            requires
                cell.0 <= u32::MAX,
                cell.1 <= u32::MAX,
                width <= u32::MAX,
        ;
        Square { x: cell.0 as u64 * width as u64, y: cell.1 as u64 * width as u64, side: width }
    }
}

} // verus!
