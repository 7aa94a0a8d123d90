//! The rules of a single-player Snake game on a fixed rectangular grid.
//!
//! The crate holds the simulation only: how the snake moves and grows, when it
//! dies, where the food goes and how the score is kept. Every function carries
//! a contract over the mathematical model of its type. Drawing and input are
//! left to the caller, who reads the state between two ticks.

pub mod direction;
pub mod food;
pub mod game;
pub mod grid;
pub mod screen;
pub mod snake;

pub use direction::{Direction, Key};
pub use food::{Food, MAX_DRAWS};
pub use game::Game;
pub use grid::{Grid, SnakePiece};
pub use screen::{Frame, Square};
pub use snake::Snake;
