//! The food: one cell, and how it finds a new place once it is eaten.

use vstd::prelude::*;
use crate::grid::{Grid, SnakePiece};
use crate::screen::Square;
use crate::snake::Snake;

verus! {

/// How many cells are drawn at random before the grid is searched in order.
pub const MAX_DRAWS: u32 = 10_000;

/// The food, at column `x` and row `y`.
#[derive(Clone, Copy, Debug, PartialEq, Eq, Structural)]
pub struct Food {
    pub x: u32,
    pub y: u32,
}

/// A number below `bound`, drawn by `rand::Rng::gen_range` from the generator
/// that `rand::thread_rng` keeps for the running thread.
///
/// Trusted: the draw lies in the range that was asked for, `0..bound`, and
/// the range must not be empty, since `gen_range` panics on an empty one.
/// Which number comes is left open, and two draws may differ.
#[verifier::external_body]
fn random_below(bound: u32) -> (drawn: u32)
    requires
        bound > 0,
    ensures
        drawn < bound,
{
    rand::Rng::gen_range(&mut rand::thread_rng(), 0..bound)
}

impl Food {
    /// The cell that the food lies on.
    pub open spec fn cell(&self) -> SnakePiece {
        SnakePiece(self.x, self.y)
    }

    /// Food at column `x` and row `y`.
    pub fn new(x: u32, y: u32) -> (food: Food)
        ensures
            food.x == x,
            food.y == y,
    {
        Food { x, y }
    }

    /// Whether the snake's head is on the food.
    pub fn update(&self, snake: &Snake) -> (eaten: bool)
        ensures
            eaten == (snake@[0] == self.cell()),
    {
        let front = snake.head();
        front.0 == self.x && front.1 == self.y
    }

    /// The square that shows the food where a cell is `width` pixels wide.
    pub fn render(&self, width: u32) -> (square: Square)
        ensures
            square == Square::at(self.cell(), width),
    {
        Square::of(SnakePiece(self.x, self.y), width)
    }

    /// Moves the food to `candidate` unless the snake lies there, and says
    /// whether it moved.
    pub fn place(&mut self, snake: &Snake, candidate: SnakePiece) -> (placed: bool)
        ensures
            placed == !snake@.contains(candidate),
            placed ==> final(self).cell() == candidate,
            !placed ==> *final(self) == *old(self),
    {
        if snake.is_collide(candidate.0, candidate.1) {
            false
        } else {
            self.x = candidate.0;
            self.y = candidate.1;
            true
        }
    }

    /// Moves the food to a cell of the grid that the snake does not cover,
    /// and returns that cell; `None`, with the food left where it is, exactly
    /// where the snake covers the whole grid.
    ///
    /// Cells are drawn at random, the column first and then the row, until
    /// one is free. After `MAX_DRAWS` draws without luck the food takes the
    /// first free cell in reading order instead.
    pub fn relocate(&mut self, snake: &Snake, grid: &Grid) -> (moved: Option<SnakePiece>)
        ensures
            moved.is_some() == snake.has_room(*grid),
            match moved {
                Some(cell) => {
                    &&& final(self).cell() == cell
                    &&& grid.contains(cell)
                    &&& !snake@.contains(cell)
                },
                None => *final(self) == *old(self),
            },
    {
        if grid.cols == 0 || grid.rows == 0 {
            return None;
        }
        let mut draws: u32 = 0;
        while draws < MAX_DRAWS
            invariant
                *self == *old(self),
                grid.cols > 0,
                grid.rows > 0,
            decreases MAX_DRAWS - draws,
        {
            let new_x = random_below(grid.cols);
            let new_y = random_below(grid.rows);
            let candidate = SnakePiece(new_x, new_y);
            if self.place(snake, candidate) {
                assert(grid.contains(candidate));
                return Some(candidate);
            }
            draws += 1;
        }
        match snake.first_free(grid) {
            Some(cell) => {
                self.x = cell.0;
                self.y = cell.1;
                Some(cell)
            },
            None => None,
        }
    }
}

} // verus!
