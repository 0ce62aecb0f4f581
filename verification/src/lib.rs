//! A two-player, turn-based N-by-N grid game engine (tic-tac-toe style).
//!
//! The crate is split in three parts:
//! - [`board`]: the grid of cells and its validated read/mutate operations;
//! - [`evaluator`]: the stateless win/draw evaluator over a grid;
//! - [`engine`]: the turn/session state machine that applies moves,
//!   runs the evaluator, and handles the reset protocol.
//!
//! Presentation and input handling (mapping clicks to cells, rendering the
//! board) are deliberately outside this crate: callers hand the engine
//! already-resolved `(row, col)` coordinates and read its state back.

pub mod board;
pub mod engine;
pub mod evaluator;

pub use board::BoardState;
pub use board::Cell;
pub use board::MoveError;
pub use board::Player;
pub use engine::GameState;
pub use engine::Status;
pub use evaluator::Outcome;
pub use evaluator::check_win_condition;
pub use evaluator::evaluate;
