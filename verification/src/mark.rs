//! Marking: the toggle between a closed and a marked cell.

use vstd::prelude::*;
use crate::board::{Board, Minesweeper};
use crate::cell::CellState;
use crate::error::GameError;

verus! {

/// The state that marking turns `state` into: a closed cell becomes marked,
/// a marked cell becomes closed again, and an open cell stays open.
pub open spec fn toggled(state: CellState) -> CellState {
    match state {
        CellState::Close => CellState::Marked,
        CellState::Marked => CellState::Close,
        CellState::Open => CellState::Open,
    }
}

impl Board {
    /// The board after the cell at `(r, c)` has been marked or unmarked:
    /// the state of that cell is toggled, and nothing else has changed.
    pub open spec fn marked(self, r: int, c: int) -> Board {
        self.with_state(self.index_of(r, c), toggled(self.at(r, c).state))
    }
}

impl Minesweeper {
    /// Marks the closed cell at `(row, col)`, or takes the mark off it again.
    /// An open cell is left as it is. Neither the type nor the count of the
    /// cell changes.
    ///
    /// Fails with [`GameError::Index`], and changes nothing, exactly when
    /// `(row, col)` lies outside the grid.
    pub fn mark_cell(&mut self, row: usize, col: usize) -> (res: Result<(), GameError>)
        requires
            old(self).wf(),
        ensures
            final(self).wf(),
            res is Ok <==> old(self)@.in_bounds(row as int, col as int),
            res is Ok ==> final(self)@ == old(self)@.marked(row as int, col as int),
            res matches Err(e) ==> e == GameError::Index && final(self)@ == old(self)@,
    {
        if row >= self.rows || col >= self.cols {
            return Err(GameError::Index);
        }
        let i = self.index(row, col);
        let next = match self.cells[i].state {
            CellState::Close => CellState::Marked,
            CellState::Marked => CellState::Close,
            CellState::Open => CellState::Open,
        };
        self.set_state(i, next);
        proof {
            old(self)@.lemma_states_keep_wf(self@);
        }
        Ok(())
    }
}

} // verus!
