//! Rules engine for a Minesweeper-style puzzle.
//!
//! The engine owns a grid of cells, places mines lazily so that the first
//! revealed cell and its neighbourhood are safe, opens regions by flood fill,
//! toggles marks, and describes how the board is drawn as a list of draw
//! commands. Every function is verified against a mathematical model of the
//! board, [`Board`].
//!
//! The engine draws nothing and reads no random numbers itself. A reveal
//! takes the random cell indices that the caller has drawn, and rendering
//! gives back the commands for the caller to carry out.
//!
//! - [`cell`], [`board`]: the data and its model, with the board's invariant.
//! - [`create`]: construction and bounds checks.
//! - [`generate`]: placing the mines and counting neighbours.
//! - [`flood`]: opening a cell and the region around it.
//! - [`mark`]: marking and unmarking.
//! - [`draw`]: the draw commands of a board.
//! - [`api`]: the four operations of a host: create, render, reveal, mark.
//! - [`laws`]: what holds of every board, proved over the model.

pub mod api;
pub mod board;
pub mod cell;
pub mod create;
pub mod draw;
pub mod error;
pub mod flood;
pub mod generate;
pub mod geometry;
pub mod laws;
pub mod mark;

pub use api::{init, mark_cell, open_cell, render, DEFAULT_BOMB_PERCENT};
pub use board::{Board, Minesweeper};
pub use cell::{Cell, CellState, CellType, CellView};
pub use error::GameError;
pub use draw::{Draw, DrawCommand};
pub use geometry::abs;
