//! Headings, and how a key press turns one into the next.

use vstd::prelude::*;
use crate::grid::SnakePiece;

verus! {

/// The way the snake travels. `Still` is where a game starts: the snake rests
/// until the first arrow key, and no key leads back to `Still`.
#[derive(Clone, Copy, Debug, PartialEq, Eq, Structural)]
pub enum Direction {
    Up,
    Left,
    Right,
    Down,
    Still,
}

/// A key press as the rules see it: one of the four arrows, or anything else.
#[derive(Clone, Copy, Debug, PartialEq, Eq, Structural)]
pub enum Key {
    Up,
    Left,
    Right,
    Down,
    Other,
}

impl Key {
    /// The heading that the key asks for; `Still` for a key that is no arrow.
    pub open spec fn wanted(self) -> Direction {
        match self {
            Key::Up => Direction::Up,
            Key::Left => Direction::Left,
            Key::Right => Direction::Right,
            Key::Down => Direction::Down,
            Key::Other => Direction::Still,
        }
    }
}

impl Direction {
    /// The change of column in one step.
    pub open spec fn dx(self) -> int {
        match self {
            Direction::Left => -1,
            Direction::Right => 1,
            _ => 0,
        }
    }

    /// The change of row in one step. Row zero is the top row.
    pub open spec fn dy(self) -> int {
        match self {
            Direction::Up => -1,
            Direction::Down => 1,
            _ => 0,
        }
    }

    /// `self` and `other` point exactly against each other. `Still` opposes
    /// nothing.
    pub open spec fn opposes(self, other: Direction) -> bool {
        self != Direction::Still && self.dx() + other.dx() == 0 && self.dy() + other.dy() == 0
    }

    /// The heading after a key press: the one the key asks for, unless the key
    /// is no arrow or asks for the exact reverse of `self`.
    pub open spec fn turned(self, key: Key) -> Direction {
        if key == Key::Other || key.wanted().opposes(self) {
            self
        } else {
            key.wanted()
        }
    }

    /// Takes a key press into account. An arrow becomes the new heading, but
    /// a turn by 180 degrees is refused and any other key is ignored; in both
    /// cases the heading stays as it is.
    pub fn apply(self, key: Key) -> (next: Direction)
        ensures
            next == self.turned(key),
            !next.opposes(self),
            key == Key::Other ==> next == self,
            next == Direction::Still ==> self == Direction::Still,
    {
        match key {
            Key::Up => if self == Direction::Down { self } else { Direction::Up },
            Key::Left => if self == Direction::Right { self } else { Direction::Left },
            Key::Right => if self == Direction::Left { self } else { Direction::Right },
            Key::Down => if self == Direction::Up { self } else { Direction::Down },
            Key::Other => self,
        }
    }

    /// No key press turns a heading into its exact reverse, and none brings
    /// a moving snake to rest.
    pub proof fn lemma_never_reverses(self, key: Key)
        ensures
            !self.turned(key).opposes(self),
            !self.opposes(self.turned(key)),
            self != Direction::Still ==> self.turned(key) != Direction::Still,
    {
    }

    /// The cell one step from `cell` in this direction, where its coordinates
    /// still fit the machine's integers.
    pub fn step(self, cell: SnakePiece) -> (next: Option<SnakePiece>)
        ensures
            match next {
                Some(c) => c.0 == cell.0 + self.dx() && c.1 == cell.1 + self.dy(),
                None => !(0 <= cell.0 + self.dx() <= u32::MAX && 0 <= cell.1 + self.dy()
                    <= u32::MAX),
            },
    {
        match self {
            Direction::Up => if cell.1 == 0 { None } else { Some(SnakePiece(cell.0, cell.1 - 1)) },
            Direction::Left => if cell.0 == 0 { None } else { Some(SnakePiece(cell.0 - 1, cell.1)) },
            Direction::Right => if cell.0 == u32::MAX { None } else { Some(SnakePiece(cell.0 + 1, cell.1)) },
            Direction::Down => if cell.1 == u32::MAX { None } else { Some(SnakePiece(cell.0, cell.1 + 1)) },
            Direction::Still => Some(cell),
        }
    }
}

} // verus!
