//! The atomic unit of board state.

use vstd::prelude::*;

verus! {

/// Whether a cell hides a mine. Fixed once the board has been generated.
#[derive(Clone, Copy, Debug, PartialEq, Eq, Structural)]
pub enum CellType {
    Bomb,
    Empty,
}

/// What the player has done with a cell.
#[derive(Clone, Copy, Debug, PartialEq, Eq, Structural)]
pub enum CellState {
    Open,
    Close,
    Marked,
}

/// One grid position: its type, its state and the number of mines among its
/// up to eight neighbours.
#[derive(Clone, Copy, Debug)]
pub struct Cell {
    pub(crate) cell_type: CellType,
    pub(crate) state: CellState,
    pub(crate) bomb_neighbours: i32,
}

/// The mathematical value of a [`Cell`].
pub struct CellView {
    pub cell_type: CellType,
    pub state: CellState,
    pub bomb_neighbours: int,
}

impl View for Cell {
    type V = CellView;

    open(crate) spec fn view(&self) -> CellView {
        CellView {
            cell_type: self.cell_type,
            state: self.state,
            bomb_neighbours: self.bomb_neighbours as int,
        }
    }
}

impl Cell {
    /// The value of a closed cell without a mine and without counted
    /// neighbours.
    pub open spec fn blank_view() -> CellView {
        CellView { cell_type: CellType::Empty, state: CellState::Close, bomb_neighbours: 0 }
    }

    /// A closed cell without a mine and without counted neighbours.
    pub fn blank() -> (cell: Cell)
        ensures
            cell@ == Cell::blank_view(),
    {
        Cell { cell_type: CellType::Empty, state: CellState::Close, bomb_neighbours: 0 }
    }

    pub fn cell_type(&self) -> (t: CellType)
        ensures
            t == self@.cell_type,
    {
        self.cell_type
    }

    pub fn state(&self) -> (s: CellState)
        ensures
            s == self@.state,
    {
        self.state
    }

    pub fn bomb_neighbours(&self) -> (n: i32)
        ensures
            n == self@.bomb_neighbours,
    {
        self.bomb_neighbours
    }
}

} // verus!
