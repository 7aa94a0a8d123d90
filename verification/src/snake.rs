//! The snake: a sequence of cells, head first, and the heading it travels in.

use std::collections::VecDeque;
use vstd::prelude::*;
use crate::direction::{Direction, Key};
use crate::grid::{all_on_grid, is_chain, Grid, SnakePiece};
use crate::screen::Square;

verus! {

/// The snake. Its cells run from the head, at index zero, to the tail. The
/// head is kept apart from the cells behind it, so a snake without a cell
/// cannot be written down.
#[derive(Debug)]
pub struct Snake {
    head: SnakePiece,
    rest: VecDeque<SnakePiece>,
    dir: Direction,
}

impl View for Snake {
    type V = Seq<SnakePiece>;

    /// The cells of the body, head first.
    closed spec fn view(&self) -> Seq<SnakePiece> {
        seq![self.head] + self.rest@
    }
}

impl Snake {
    /// The heading.
    pub closed spec fn heading(&self) -> Direction {
        self.dir
    }

    /// The column that the head moves to in the next step.
    pub open spec fn target_x(&self) -> int {
        self@[0].0 + self.heading().dx()
    }

    /// The row that the head moves to in the next step.
    pub open spec fn target_y(&self) -> int {
        self@[0].1 + self.heading().dy()
    }

    /// The cell that the head moves to in the next step. It means something
    /// only where that step stays on a grid.
    pub open spec fn target(&self) -> SnakePiece {
        SnakePiece(self.target_x() as u32, self.target_y() as u32)
    }

    /// The cells that stay where they are in a step: all of them where the
    /// snake grows, all but the tail where it slides.
    pub open spec fn kept(&self, grows: bool) -> Seq<SnakePiece> {
        if grows {
            self@
        } else {
            self@.drop_last()
        }
    }

    /// The next step leaves the grid.
    pub open spec fn exits(&self, grid: Grid) -> bool {
        !grid.holds(self.target_x(), self.target_y())
    }

    /// The next step runs into the body. The tail counts only where the snake
    /// grows: a sliding snake may follow its own tail.
    pub open spec fn bites(&self, grows: bool) -> bool {
        self.kept(grows).contains(self.target())
    }

    /// The snake is alive after the next step.
    pub open spec fn survives(&self, grows: bool, grid: Grid) -> bool {
        !self.exits(grid) && !self.bites(grows)
    }

    /// The body after the next step: the target cell in front of the cells
    /// that were kept, or the body as it is where the snake dies.
    pub open spec fn advanced(&self, grows: bool, grid: Grid) -> Seq<SnakePiece> {
        if self.survives(grows, grid) {
            seq![self.target()] + self.kept(grows)
        } else {
            self@
        }
    }

    /// Some cell of the grid is not part of the body.
    pub open spec fn has_room(&self, grid: Grid) -> bool {
        exists|cell: SnakePiece| grid.contains(cell) && !self@.contains(cell)
    }

    /// The head is on an edge of the grid and the heading points off it: up
    /// in the top row, left in the first column, right in the last column or
    /// down in the bottom row.
    pub open spec fn faces_wall(&self, grid: Grid) -> bool {
        match self.heading() {
            Direction::Up => self@[0].1 == 0,
            Direction::Left => self@[0].0 == 0,
            Direction::Right => self@[0].0 + 1 == grid.cols,
            Direction::Down => self@[0].1 + 1 == grid.rows,
            Direction::Still => false,
        }
    }

    /// The point in front of the head is that of a cell which stays where it
    /// is in the step.
    pub open spec fn runs_into_itself(&self, grows: bool) -> bool {
        exists|i: int|
            0 <= i < self.kept(grows).len() && (#[trigger] self.kept(grows)[i]).0
                == self.target_x() && self.kept(grows)[i].1 == self.target_y()
    }

    /// A snake is never without a head.
    pub proof fn lemma_never_empty(&self)
        ensures
            self@.len() >= 1,
    {
    }

    /// A snake with the cells of `body`, head first, and the heading `dir`;
    /// `None` exactly where `body` is empty.
    pub fn new(body: Vec<SnakePiece>, dir: Direction) -> (made: Option<Snake>)
        ensures
            made.is_some() == (body@.len() > 0),
            match made {
                Some(snake) => snake@ == body@ && snake.heading() == dir,
                None => true,
            },
    {
        if body.len() == 0 {
            return None;
        }
        let mut rest: VecDeque<SnakePiece> = VecDeque::new();
        let mut i: usize = 1;
        while i < body.len()
            invariant
                1 <= i <= body@.len(),
                rest@ == body@.subrange(1, i as int),
            decreases body@.len() - i,
        {
            rest.push_back(body[i]);
            assert(rest@ =~= body@.subrange(1, i + 1));
            i += 1;
        }
        let snake = Snake { head: body[0], rest, dir };
        assert(snake@ =~= body@);
        Some(snake)
    }

    /// The cells of the body, head first.
    pub fn body(&self) -> (cells: Vec<SnakePiece>)
        ensures
            cells@ == self@,
    {
        let mut cells: Vec<SnakePiece> = Vec::new();
        cells.push(self.head);
        let mut i: usize = 0;
        while i < self.rest.len()
            invariant
                i <= self.rest@.len(),
                cells@ == seq![self.head] + self.rest@.take(i as int),
            decreases self.rest@.len() - i,
        {
            cells.push(self.rest[i]);
            assert(cells@ =~= seq![self.head] + self.rest@.take(i + 1));
            i += 1;
        }
        assert(self.rest@.take(self.rest@.len() as int) =~= self.rest@);
        cells
    }

    /// The heading.
    pub fn dir(&self) -> (dir: Direction)
        ensures
            dir == self.heading(),
    {
        self.dir
    }

    /// Turns the snake as the key asks, where the rules of turning allow it.
    /// The body stays as it is.
    pub fn steer(&mut self, key: Key)
        ensures
            final(self).heading() == old(self).heading().turned(key),
            final(self)@ == old(self)@,
    {
        self.dir = self.dir.apply(key);
    }

    /// The cell that the head is on.
    pub fn head(&self) -> (cell: SnakePiece)
        ensures
            cell == self@[0],
    {
        self.head
    }

    /// Whether `cell` is among the first `end` cells behind the head.
    fn behind_head(&self, cell: SnakePiece, end: usize) -> (found: bool)
        requires
            end <= self.rest@.len(),
        ensures
            found == self.rest@.take(end as int).contains(cell),
    {
        let mut i: usize = 0;
        while i < end
            invariant
                i <= end <= self.rest@.len(),
                !self.rest@.take(i as int).contains(cell),
            decreases end - i,
        {
            if self.rest[i] == cell {
                assert(self.rest@.take(end as int)[i as int] == cell);
                return true;
            }
            assert(self.rest@.take(i + 1) =~= self.rest@.take(i as int).push(self.rest@[i as int]));
            i += 1;
        }
        false
    }

    /// Whether the cell in column `x` and row `y` is part of the body.
    pub fn is_collide(&self, x: u32, y: u32) -> (hit: bool)
        ensures
            hit == self@.contains(SnakePiece(x, y)),
    {
        let cell = SnakePiece(x, y);
        let behind = self.behind_head(cell, self.rest.len());
        proof {
            assert(self.rest@.take(self.rest@.len() as int) =~= self.rest@);
            lemma_contains_behind(self.head, self.rest@, cell);
        }
        self.head == cell || behind
    }

    /// Whether `cell` is part of the body with the tail left out.
    fn is_collide_sliding(&self, cell: SnakePiece) -> (hit: bool)
        ensures
            hit == self@.drop_last().contains(cell),
    {
        let n = self.rest.len();
        if n == 0 {
            assert(self@.drop_last() =~= Seq::<SnakePiece>::empty());
            return false;
        }
        let behind = self.behind_head(cell, n - 1);
        proof {
            assert(self@.drop_last() =~= seq![self.head] + self.rest@.take(n - 1));
            lemma_contains_behind(self.head, self.rest@.take(n - 1), cell);
        }
        self.head == cell || behind
    }

    /// The squares that show the snake where a cell is `width` pixels wide:
    /// one for each cell of the body, head first.
    pub fn render(&self, width: u32) -> (squares: Vec<Square>)
        ensures
            squares@.len() == self@.len(),
            forall|i: int| 0 <= i < self@.len() ==> squares@[i] == Square::at(self@[i], width),
    {
        let mut squares: Vec<Square> = Vec::new();
        squares.push(Square::of(self.head, width));
        let mut i: usize = 0;
        while i < self.rest.len()
            invariant
                i <= self.rest@.len(),
                squares@.len() == i + 1,
                squares@[0] == Square::at(self.head, width),
                forall|j: int| 0 <= j < i ==> squares@[j + 1] == Square::at(self.rest@[j], width),
            decreases self.rest@.len() - i,
        {
            squares.push(Square::of(self.rest[i], width));
            i += 1;
        }
        assert forall|i: int| 0 <= i < self@.len() implies squares@[i] == Square::at(
            self@[i],
            width,
        ) by {
            if i > 0 {
                assert(self@[i] == self.rest@[i - 1]);
            }
        }
        squares
    }

    /// The first cell of the grid, in reading order, that is not part of the
    /// body; `None` where the body covers the whole grid.
    pub fn first_free(&self, grid: &Grid) -> (free: Option<SnakePiece>)
        ensures
            match free {
                Some(cell) => {
                    &&& grid.contains(cell)
                    &&& !self@.contains(cell)
                    &&& forall|c: SnakePiece|
                        grid.contains(c) && c.precedes(cell) ==> self@.contains(c)
                },
                None => !self.has_room(*grid),
            },
    {
        let mut y: u32 = 0;
        while y < grid.rows
            invariant
                y <= grid.rows,
                forall|c: SnakePiece| grid.contains(c) && c.1 < y ==> self@.contains(c),
            decreases grid.rows - y,
        {
            let mut x: u32 = 0;
            while x < grid.cols
                invariant
                    x <= grid.cols,
                    y < grid.rows,
                    forall|c: SnakePiece| grid.contains(c) && c.1 < y ==> self@.contains(c),
                    forall|c: SnakePiece|
                        grid.contains(c) && c.1 == y && c.0 < x ==> self@.contains(c),
                decreases grid.cols - x,
            {
                if !self.is_collide(x, y) {
                    return Some(SnakePiece(x, y));
                }
                x += 1;
            }
            y += 1;
        }
        None
    }

    /// Moves the snake by one step on a grid of `cols` by `rows` cells, and
    /// says whether it is still alive.
    ///
    /// The head goes one cell in the heading; with `Still` it stays. Where
    /// that cell is off the grid the snake dies. Otherwise the tail is given
    /// up, unless `just_eaten` says that the snake grows, and where the cell
    /// is then still part of the body the snake dies too. A snake that dies
    /// is left exactly as it was.
    pub fn update(&mut self, just_eaten: bool, cols: u32, rows: u32) -> (alive: bool)
        ensures
            alive == old(self).survives(just_eaten, (Grid { cols, rows })),
            final(self)@ == old(self).advanced(just_eaten, (Grid { cols, rows })),
            final(self).heading() == old(self).heading(),
            alive && just_eaten ==> final(self)@.len() == old(self)@.len() + 1,
            alive && !just_eaten ==> final(self)@.len() == old(self)@.len(),
            !alive ==> *final(self) == *old(self),
    {
        let grid = Grid { cols, rows };
        let new_head = match self.dir.step(self.head) {
            Some(cell) => cell,
            None => {
                return false;
            },
        };
        if !grid.in_bounds(new_head) {
            return false;
        }
        let bitten = if just_eaten {
            self.is_collide(new_head.0, new_head.1)
        } else {
            self.is_collide_sliding(new_head)
        };
        if bitten {
            return false;
        }
        self.rest.push_front(self.head);
        if !just_eaten {
            self.rest.pop_back();
        }
        self.head = new_head;
        assert(self@ =~= old(self).advanced(just_eaten, grid));
        true
    }
}

impl Snake {
    /// A snake that faces a wall does not survive the step, whether it grows
    /// or not, and its body stays exactly as it is.
    pub proof fn lemma_wall_exit(&self, grows: bool, grid: Grid)
        requires
            self.faces_wall(grid),
        ensures
            self.exits(grid),
            !self.survives(grows, grid),
            self.advanced(grows, grid) == self@,
    {
    }

    /// For a head on the grid, to leave the grid in the next step is the same
    /// as to face a wall.
    pub proof fn lemma_exits_only_at_wall(&self, grid: Grid)
        requires
            grid.contains(self@[0]),
        ensures
            self.exits(grid) == self.faces_wall(grid),
    {
    }

    /// A snake whose head would come to lie on a cell that stays where it is
    /// does not survive the step, and its body stays exactly as it is. For a
    /// sliding snake every cell but the tail stays.
    pub proof fn lemma_self_collision(&self, grows: bool, grid: Grid)
        requires
            self.runs_into_itself(grows),
        ensures
            self.bites(grows),
            !self.survives(grows, grid),
            self.advanced(grows, grid) == self@,
    {
        let kept = self.kept(grows);
        let i = choose|i: int|
            0 <= i < kept.len() && (#[trigger] kept[i]).0 == self.target_x() && kept[i].1
                == self.target_y();
        assert(kept[i] == self.target());
    }

    /// On a grid, to run into the body is to have the point in front of the
    /// head on a cell that stays.
    pub proof fn lemma_bites_on_grid(&self, grows: bool, grid: Grid)
        requires
            !self.exits(grid),
        ensures
            self.bites(grows) == self.runs_into_itself(grows),
    {
        let kept = self.kept(grows);
        if self.bites(grows) {
            let i = choose|i: int| 0 <= i < kept.len() && kept[i] == self.target();
            assert(kept[i].0 == self.target_x() && kept[i].1 == self.target_y());
        }
        if self.runs_into_itself(grows) {
            self.lemma_self_collision(grows, grid);
        }
    }

    /// A sliding snake may follow its own tail: the cell that the tail gives
    /// up in a step does not count as part of the body in that step, unless
    /// another cell of the body lies there too.
    pub proof fn lemma_tail_is_free(&self, grid: Grid)
        requires
            self@.len() >= 2,
            !self.exits(grid),
            self.target() == self@.last(),
            !self@.drop_last().contains(self@.last()),
        ensures
            self.survives(false, grid),
            self.advanced(false, grid).len() == self@.len(),
            self.advanced(false, grid)[0] == self@.last(),
    {
    }

    /// A snake that lies on the grid lies on it after the step as well.
    pub proof fn lemma_step_stays_on_grid(&self, grows: bool, grid: Grid)
        requires
            all_on_grid(self@, grid),
        ensures
            all_on_grid(self.advanced(grows, grid), grid),
    {
        let after = self.advanced(grows, grid);
        assert forall|i: int| 0 <= i < after.len() implies grid.contains(#[trigger] after[i]) by {
            if self.survives(grows, grid) && i > 0 {
                assert(after[i] == self@[i - 1]);
            }
        }
    }

    /// A moving snake whose cells form a chain of neighbours forms one after
    /// the step as well: the new head is a neighbour of the old one.
    pub proof fn lemma_step_keeps_chain(&self, grows: bool, grid: Grid)
        requires
            is_chain(self@),
            self.heading() != Direction::Still,
        ensures
            is_chain(self.advanced(grows, grid)),
    {
        let after = self.advanced(grows, grid);
        if self.survives(grows, grid) {
            assert forall|i: int| 0 <= i < after.len() - 1 implies (#[trigger] after[i]).touches(
                after[i + 1],
            ) by {
                if i == 0 {
                    assert(after[1] == self@[0]);
                } else {
                    assert(after[i] == self@[i - 1]);
                    assert(after[i + 1] == self@[i]);
                    assert(self@[i - 1].touches(self@[i]));
                }
            }
        }
    }

    /// A step that the snake survives keeps the length of a sliding snake
    /// and adds one cell to a growing one; all cells but the new head are
    /// the old ones, each moved back by one place.
    pub proof fn lemma_advanced_shape(&self, grows: bool, grid: Grid)
        requires
            self.survives(grows, grid),
        ensures
            self.advanced(grows, grid).len() == self@.len() + if grows { 1int } else { 0int },
            self.advanced(grows, grid)[0] == self.target(),
            grid.contains(self.advanced(grows, grid)[0]),
            forall|i: int|
                1 <= i < self.advanced(grows, grid).len() ==> self.advanced(grows, grid)[i]
                    == self@[i - 1],
    {
    }
}

/// A cell is in a sequence with `first` put in front exactly if it is `first`
/// or in the sequence.
proof fn lemma_contains_behind(first: SnakePiece, behind: Seq<SnakePiece>, cell: SnakePiece)
    ensures
        (seq![first] + behind).contains(cell) <==> first == cell || behind.contains(cell),
{
    let all = seq![first] + behind;
    if first == cell {
        assert(all[0] == cell);
    }
    if behind.contains(cell) {
        let i = choose|i: int| 0 <= i < behind.len() && behind[i] == cell;
        assert(all[i + 1] == cell);
    }
    if all.contains(cell) {
        let j = choose|j: int| 0 <= j < all.len() && all[j] == cell;
        if j > 0 {
            assert(behind[j - 1] == cell);
        }
    }
}

} // verus!
