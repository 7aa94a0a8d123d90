//! The game: one snake, one piece of food and a score, moved on tick by tick.

use vstd::prelude::*;
use crate::direction::Key;
use crate::food::Food;
use crate::grid::{all_on_grid, Grid};
use crate::screen::{Frame, Square};
use crate::snake::Snake;

verus! {

/// The whole state of a game between two ticks.
#[derive(Debug)]
pub struct Game {
    /// The number of rows of the grid.
    pub rows: u32,
    /// The number of columns of the grid.
    pub cols: u32,
    pub snake: Snake,
    /// The head reached the food in the last tick. The snake grows, and the
    /// score counts it, in the tick that follows.
    pub just_eaten: bool,
    /// The side of one cell on the screen, in pixels.
    pub square_width: u32,
    pub food: Food,
    /// How often the snake has eaten and grown.
    pub score: u32,
}

impl Game {
    /// The grid that the game is played on.
    pub open spec fn grid(&self) -> Grid {
        Grid { cols: self.cols, rows: self.rows }
    }

    /// The snake is alive after the next tick.
    pub open spec fn survives(&self) -> bool {
        self.snake.survives(self.just_eaten, self.grid())
    }

    /// The snake and the food lie on the grid.
    pub open spec fn on_grid(&self) -> bool {
        all_on_grid(self.snake@, self.grid()) && self.grid().contains(self.food.cell())
    }

    /// A new game: nothing eaten yet, and a score of zero.
    pub fn new(cols: u32, rows: u32, square_width: u32, snake: Snake, food: Food) -> (game: Game)
        ensures
            game.cols == cols,
            game.rows == rows,
            game.square_width == square_width,
            game.snake == snake,
            game.food == food,
            !game.just_eaten,
            game.score == 0,
    {
        Game { rows, cols, snake, just_eaten: false, square_width, food, score: 0 }
    }

    /// What the next frame shows: the snake, then the food, each cell as a
    /// square with `square_width` pixels to a side.
    pub fn render(&self) -> (frame: Frame)
        ensures
            frame.snake@.len() == self.snake@.len(),
            forall|i: int|
                0 <= i < self.snake@.len() ==> frame.snake@[i] == Square::at(
                    self.snake@[i],
                    self.square_width,
                ),
            frame.food == Square::at(self.food.cell(), self.square_width),
    {
        Frame {
            snake: self.snake.render(self.square_width),
            food: self.food.render(self.square_width),
        }
    }

    /// Plays one tick, and says whether the game goes on.
    ///
    /// The snake moves by one step, growing if it ate in the tick before.
    /// Where it dies the game is over and nothing changes, so the score
    /// stands. Otherwise a meal of the tick before is added to the score now,
    /// and the head is held against the food: where it has reached it, the
    /// food moves to a cell off the snake, or stays if there is none.
    pub fn update(&mut self) -> (alive: bool)
        requires
            old(self).just_eaten ==> old(self).score < u32::MAX,
        ensures
            alive == old(self).survives(),
            !alive ==> *final(self) == *old(self),
            final(self).cols == old(self).cols,
            final(self).rows == old(self).rows,
            final(self).square_width == old(self).square_width,
            final(self).snake@ == old(self).snake.advanced(old(self).just_eaten, old(self).grid()),
            final(self).snake.heading() == old(self).snake.heading(),
            old(self).on_grid() ==> final(self).on_grid(),
            final(self).score >= old(self).score,
            final(self).score == old(self).score + 1 <==> alive && old(self).just_eaten,
            final(self).score == old(self).score <==> !(alive && old(self).just_eaten),
            alive ==> final(self).just_eaten == (final(self).snake@[0] == old(self).food.cell()),
            alive && !final(self).just_eaten ==> final(self).food == old(self).food,
            alive && final(self).just_eaten ==> if final(self).snake.has_room(old(self).grid()) {
                &&& final(self).grid().contains(final(self).food.cell())
                &&& !final(self).snake@.contains(final(self).food.cell())
            } else {
                final(self).food == old(self).food
            },
    {
        proof {
            if self.on_grid() {
                self.snake.lemma_step_stays_on_grid(self.just_eaten, self.grid());
            }
        }
        if !self.snake.update(self.just_eaten, self.cols, self.rows) {
            return false;
        }
        if self.just_eaten {
            self.score += 1;
            self.just_eaten = false;
        }
        self.just_eaten = self.food.update(&self.snake);
        if self.just_eaten {
            let grid = Grid { cols: self.cols, rows: self.rows };
            self.food.relocate(&self.snake, &grid);
        }
        true
    }

    /// Takes a key press: the snake turns as the key asks, where the rules
    /// of turning allow it. Nothing else changes.
    pub fn pressed(&mut self, key: Key)
        ensures
            final(self).snake.heading() == old(self).snake.heading().turned(key),
            final(self).snake@ == old(self).snake@,
            final(self).cols == old(self).cols,
            final(self).rows == old(self).rows,
            final(self).square_width == old(self).square_width,
            final(self).just_eaten == old(self).just_eaten,
            final(self).food == old(self).food,
            final(self).score == old(self).score,
    {
        self.snake.steer(key);
    }
}

} // verus!
