//! The board: its data, its mathematical model and what makes it valid.

use vstd::prelude::*;
use crate::cell::{Cell, CellState, CellType, CellView};
use crate::geometry::{in_safe_zone, lemma_index_of_position, lemma_position_of_index};

verus! {

/// The grid of cells together with the parameters fixed when the board was
/// created. The cells are stored row by row.
#[derive(Clone, Debug)]
pub struct Minesweeper {
    pub(crate) screen_width: i32,
    pub(crate) screen_height: i32,
    pub(crate) cell_size: i32,
    pub(crate) rows: usize,
    pub(crate) cols: usize,
    pub(crate) cells: Vec<Cell>,
    pub(crate) cell_border: i32,
    pub(crate) bomb_percent: usize,
    pub(crate) generated: bool,
}

/// The mathematical value of a [`Minesweeper`]: the contracts of the engine
/// are stated over this model.
pub struct Board {
    pub screen_width: int,
    pub screen_height: int,
    pub cell_size: int,
    pub cell_border: int,
    pub rows: nat,
    pub cols: nat,
    pub bomb_percent: nat,
    pub generated: bool,
    /// The cells in row-major order: the cell at `(r, c)` has index
    /// `r * cols + c`.
    pub cells: Seq<CellView>,
}

impl View for Minesweeper {
    type V = Board;

    open(crate) spec fn view(&self) -> Board {
        Board {
            screen_width: self.screen_width as int,
            screen_height: self.screen_height as int,
            cell_size: self.cell_size as int,
            cell_border: self.cell_border as int,
            rows: self.rows as nat,
            cols: self.cols as nat,
            bomb_percent: self.bomb_percent as nat,
            generated: self.generated,
            cells: Seq::new(self.cells@.len(), |i: int| self.cells@[i]@),
        }
    }
}

impl Board {
    /// The number of cells.
    pub open spec fn size(self) -> nat {
        self.rows * self.cols
    }

    pub open spec fn in_bounds(self, r: int, c: int) -> bool {
        0 <= r < self.rows && 0 <= c < self.cols
    }

    /// The row-major index of the position `(r, c)`.
    pub open spec fn index_of(self, r: int, c: int) -> int {
        r * self.cols + c
    }

    /// The row of the cell with index `i`.
    pub open spec fn row_of(self, i: int) -> int {
        i / (self.cols as int)
    }

    /// The column of the cell with index `i`.
    pub open spec fn col_of(self, i: int) -> int {
        i % (self.cols as int)
    }

    /// The cell at `(r, c)`.
    pub open spec fn at(self, r: int, c: int) -> CellView
        recommends
            self.in_bounds(r, c),
    {
        self.cells[self.index_of(r, c)]
    }

    /// Whether `(r, c)` is a cell of the grid that holds a mine.
    pub open spec fn is_bomb(self, r: int, c: int) -> bool {
        self.in_bounds(r, c) && self.at(r, c).cell_type == CellType::Bomb
    }

    /// 1 where `(r, c)` is a cell of the grid that holds a mine, else 0.
    pub open spec fn bomb_at(self, r: int, c: int) -> int {
        if self.is_bomb(r, c) {
            1
        } else {
            0
        }
    }

    /// The number of mines among the up to eight neighbours of `(r, c)`.
    /// Positions outside the grid count as empty, so cells on an edge or in a
    /// corner have fewer neighbours.
    pub open spec fn bomb_neighbour_count(self, r: int, c: int) -> int {
        self.bomb_at(r - 1, c - 1) + self.bomb_at(r - 1, c) + self.bomb_at(r - 1, c + 1)
            + self.bomb_at(r, c - 1) + self.bomb_at(r, c + 1) + self.bomb_at(r + 1, c - 1)
            + self.bomb_at(r + 1, c) + self.bomb_at(r + 1, c + 1)
    }

    /// The indices of the cells that hold a mine.
    pub open spec fn bombs(self) -> Set<int> {
        Set::new(|i: int| 0 <= i < self.cells.len() && self.cells[i].cell_type == CellType::Bomb)
    }

    /// The indices of the cells that are not open.
    pub open spec fn unopened(self) -> Set<int> {
        Set::new(|i: int| 0 <= i < self.cells.len() && self.cells[i].state != CellState::Open)
    }

    /// The number of mines that generation places: the bomb density applied
    /// to the number of cells, rounded down.
    pub open spec fn target_bombs(self) -> nat {
        (self.rows * self.cols * self.bomb_percent) / 100
    }

    /// Whether the cell with index `i` lies in the 3×3 block centred on
    /// `(cr, cc)`.
    pub open spec fn index_in_safe_zone(self, i: int, cr: int, cc: int) -> bool {
        in_safe_zone(self.row_of(i), self.col_of(i), cr, cc)
    }

    /// The dimensions are positive, derived from the screen and the cell
    /// size, and the grid holds `rows * cols` cells.
    pub open spec fn shaped(self) -> bool {
        &&& 0 < self.cell_size <= i32::MAX
        &&& 0 < self.rows <= i32::MAX
        &&& 0 < self.cols <= i32::MAX
        &&& self.screen_height <= i32::MAX
        &&& self.screen_width <= i32::MAX
        &&& self.rows == self.screen_height / self.cell_size
        &&& self.cols == self.screen_width / self.cell_size
        &&& self.cell_border == 2
        &&& self.bomb_percent <= 100
        &&& self.cells.len() == self.rows * self.cols
        &&& self.cells.len() <= usize::MAX
    }

    /// Every cell's stored count is the number of mines around it.
    pub open spec fn counts_exact(self) -> bool {
        forall|i: int|
            0 <= i < self.cells.len() ==> (#[trigger] self.cells[i]).bomb_neighbours
                == self.bomb_neighbour_count(self.row_of(i), self.col_of(i))
    }

    /// No cell holds a mine and every stored count is zero.
    pub open spec fn blank(self) -> bool {
        forall|i: int|
            0 <= i < self.cells.len() ==> (#[trigger] self.cells[i]).cell_type == CellType::Empty
                && self.cells[i].bomb_neighbours == 0
    }

    /// The invariant of the board. Before generation the grid is blank.
    /// After it the grid holds exactly the target number of mines and every
    /// count is exact.
    pub open spec fn wf(self) -> bool {
        &&& self.shaped()
        &&& forall|i: int|
            0 <= i < self.cells.len() ==> 0 <= (#[trigger] self.cells[i]).bomb_neighbours <= 8
        &&& self.generated ==> self.counts_exact() && self.bombs().len() == self.target_bombs()
        &&& !self.generated ==> self.blank()
    }

    /// The same board with the cell at index `i` replaced.
    pub open spec fn with_cell(self, i: int, cell: CellView) -> Board {
        Board { cells: self.cells.update(i, cell), ..self }
    }

    /// The same board with the state of the cell at index `i` replaced.
    pub open spec fn with_state(self, i: int, state: CellState) -> Board {
        self.with_cell(
            i,
            CellView {
                cell_type: self.cells[i].cell_type,
                state,
                bomb_neighbours: self.cells[i].bomb_neighbours,
            },
        )
    }

    /// Whether `after` has the dimensions of `self` and its mines where
    /// `self` has them.
    pub open spec fn same_layout(self, after: Board) -> bool {
        &&& after.rows == self.rows
        &&& after.cols == self.cols
        &&& after.cells.len() == self.cells.len()
        &&& forall|i: int|
            0 <= i < self.cells.len() ==> (#[trigger] after.cells[i]).cell_type
                == self.cells[i].cell_type
    }

    /// Whether `after` differs from `self` in the states of cells only.
    pub open spec fn same_but_states(self, after: Board) -> bool {
        &&& after == Board { cells: after.cells, ..self }
        &&& self.same_layout(after)
        &&& forall|i: int|
            0 <= i < self.cells.len() ==> (#[trigger] after.cells[i]).bomb_neighbours
                == self.cells[i].bomb_neighbours
    }

    /// A position inside the grid has an index inside the grid, from which
    /// the position is found again.
    pub proof fn lemma_index(self, r: int, c: int)
        requires
            self.shaped(),
            self.in_bounds(r, c),
        ensures
            0 <= self.index_of(r, c) < self.cells.len(),
            self.row_of(self.index_of(r, c)) == r,
            self.col_of(self.index_of(r, c)) == c,
    {
        lemma_index_of_position(self.rows as int, self.cols as int, r, c);
    }

    /// An index inside the grid names a position inside the grid, whose
    /// index it is.
    pub proof fn lemma_position(self, i: int)
        requires
            self.shaped(),
            0 <= i < self.cells.len(),
        ensures
            self.in_bounds(self.row_of(i), self.col_of(i)),
            self.index_of(self.row_of(i), self.col_of(i)) == i,
            self.at(self.row_of(i), self.col_of(i)) == self.cells[i],
    {
        lemma_position_of_index(self.rows as int, self.cols as int, i);
    }

    /// Where the layout is the same, every position has as many mines
    /// around it as before.
    pub proof fn lemma_same_bombs(self, after: Board, r: int, c: int)
        requires
            self.shaped(),
            self.same_layout(after),
        ensures
            after.bomb_at(r, c) == self.bomb_at(r, c),
            after.bomb_neighbour_count(r, c) == self.bomb_neighbour_count(r, c),
    {
        assert forall|pr: int, pc: int| after.bomb_at(pr, pc) == self.bomb_at(pr, pc) by {
            if self.in_bounds(pr, pc) {
                self.lemma_index(pr, pc);
                assert(after.cells[self.index_of(pr, pc)].cell_type == self.cells[self.index_of(
                    pr,
                    pc,
                )].cell_type);
            }
        }
    }

    /// A change of states alone keeps a valid board valid.
    pub proof fn lemma_states_keep_wf(self, after: Board)
        requires
            self.wf(),
            self.same_but_states(after),
        ensures
            after.wf(),
            after.bombs() == self.bombs(),
    {
        assert(after.bombs() =~= self.bombs());
        assert forall|i: int| 0 <= i < after.cells.len() implies {
            0 <= (#[trigger] after.cells[i]).bomb_neighbours <= 8
        } by {
            assert(0 <= self.cells[i].bomb_neighbours <= 8);
        }
        if self.generated {
            assert forall|i: int| 0 <= i < after.cells.len() implies {
                (#[trigger] after.cells[i]).bomb_neighbours == after.bomb_neighbour_count(
                    after.row_of(i),
                    after.col_of(i),
                )
            } by {
                self.lemma_same_bombs(after, self.row_of(i), self.col_of(i));
                assert(self.cells[i].bomb_neighbours == self.bomb_neighbour_count(
                    self.row_of(i),
                    self.col_of(i),
                ));
            }
        } else {
            assert forall|i: int| 0 <= i < after.cells.len() implies {
                &&& (#[trigger] after.cells[i]).cell_type == CellType::Empty
                &&& after.cells[i].bomb_neighbours == 0
            } by {
                assert(self.cells[i].cell_type == CellType::Empty);
            }
        }
    }
}

impl Minesweeper {
    /// The invariant of the board, see [`Board::wf`].
    pub open spec fn wf(&self) -> bool {
        self@.wf()
    }

    /// Replaces the cell with index `i`.
    pub(crate) fn set_cell(&mut self, i: usize, cell: Cell)
        requires
            i < old(self)@.cells.len(),
        ensures
            final(self)@ == old(self)@.with_cell(i as int, cell@),
    {
        self.cells.set(i, cell);
        assert(self@.cells =~= old(self)@.with_cell(i as int, cell@).cells);
    }

    /// Sets the state of the cell with index `i`.
    pub(crate) fn set_state(&mut self, i: usize, state: CellState)
        requires
            i < old(self)@.cells.len(),
        ensures
            final(self)@ == old(self)@.with_state(i as int, state),
    {
        let mut cell: Cell = self.cells[i];
        cell.state = state;
        self.set_cell(i, cell);
    }

    pub fn rows(&self) -> (n: usize)
        ensures
            n == self@.rows,
    {
        self.rows
    }

    pub fn cols(&self) -> (n: usize)
        ensures
            n == self@.cols,
    {
        self.cols
    }

    /// Whether the mines have been placed.
    pub fn is_generated(&self) -> (g: bool)
        ensures
            g == self@.generated,
    {
        self.generated
    }

    /// The bomb density in percent.
    pub fn bomb_percent(&self) -> (p: usize)
        ensures
            p == self@.bomb_percent,
    {
        self.bomb_percent
    }
}

} // verus!
