//! Board construction and bounds checks.

use vstd::prelude::*;
use crate::board::{Board, Minesweeper};
use crate::cell::{Cell, CellState, CellType, CellView};
use crate::error::GameError;

verus! {

impl Board {
    /// Whether the parameters describe a board: a positive cell size, a
    /// screen that holds at least one cell each way, a density of at most
    /// 100 percent, and a number of cells that the machine can index.
    pub open spec fn creatable(
        screen_height: int,
        screen_width: int,
        cell_size: int,
        bomb_percent: nat,
    ) -> bool {
        &&& cell_size > 0
        &&& screen_height >= cell_size
        &&& screen_width >= cell_size
        &&& bomb_percent <= 100
        &&& (screen_height / cell_size) * (screen_width / cell_size) <= usize::MAX
    }

    /// The board as it is created: every cell closed, empty and with a zero
    /// count, nothing generated, and a border of two pixels.
    pub open spec fn fresh(
        screen_height: int,
        screen_width: int,
        cell_size: int,
        bomb_percent: nat,
    ) -> Board {
        Board {
            screen_width,
            screen_height,
            cell_size,
            cell_border: 2,
            rows: (screen_height / cell_size) as nat,
            cols: (screen_width / cell_size) as nat,
            bomb_percent,
            generated: false,
            cells: Seq::new(
                ((screen_height / cell_size) * (screen_width / cell_size)) as nat,
                |i: int|
                    CellView {
                        cell_type: CellType::Empty,
                        state: CellState::Close,
                        bomb_neighbours: 0,
                    },
            ),
        }
    }
}

impl Minesweeper {
    /// Creates a board of `screen_height / cell_size` rows and
    /// `screen_width / cell_size` columns with the given bomb density.
    ///
    /// Fails with [`GameError::Configuration`] exactly when the parameters
    /// are not [`Board::creatable`].
    pub fn with_density(
        screen_height: i32,
        screen_width: i32,
        cell_size: i32,
        bomb_percent: usize,
    ) -> (res: Result<Minesweeper, GameError>)
        ensures
            res is Ok <==> Board::creatable(
                screen_height as int,
                screen_width as int,
                cell_size as int,
                bomb_percent as nat,
            ),
            res matches Ok(game) ==> game.wf() && game@ == Board::fresh(
                screen_height as int,
                screen_width as int,
                cell_size as int,
                bomb_percent as nat,
            ),
            res matches Err(e) ==> e == GameError::Configuration,
    {
        if cell_size <= 0 || screen_height < cell_size || screen_width < cell_size
            || bomb_percent > 100 {
            return Err(GameError::Configuration);
        }
        let rows: usize = (screen_height / cell_size) as usize;
        let cols: usize = (screen_width / cell_size) as usize;
        proof {
            lemma_quotient_bounds(screen_height as int, cell_size as int);
            lemma_quotient_bounds(screen_width as int, cell_size as int);
        }
        let total: usize = match rows.checked_mul(cols) {
            Some(n) => n,
            None => {
                return Err(GameError::Configuration);
            },
        };
        let mut cells: Vec<Cell> = Vec::new();
        let mut i: usize = 0;
        while i < total
            invariant
                i <= total,
                cells@.len() == i,
                forall|k: int| 0 <= k < i ==> (#[trigger] cells@[k])@ == Cell::blank_view(),
            decreases total - i,
        {
            cells.push(Cell::blank());
            i = i + 1;
        }
        let game = Minesweeper {
            screen_width,
            screen_height,
            cell_size,
            rows,
            cols,
            cells,
            cell_border: 2,
            bomb_percent,
            generated: false,
        };
        proof {
            let fresh = Board::fresh(
                screen_height as int,
                screen_width as int,
                cell_size as int,
                bomb_percent as nat,
            );
            assert(game@.cells =~= fresh.cells);
            assert(game@ == fresh);
            assert(game@.bombs() =~= Set::<int>::empty());
        }
        Ok(game)
    }

    /// The position `(row, col)` as grid coordinates, where it lies inside
    /// the grid.
    pub fn clamp(&self, row: i32, col: i32) -> (res: Option<(usize, usize)>)
        ensures
            res is Some <==> self@.in_bounds(row as int, col as int),
            res matches Some(p) ==> p.0 == row && p.1 == col,
    {
        if row < 0 || col < 0 {
            return None;
        }
        let r: usize = row as usize;
        let c: usize = col as usize;
        if r >= self.rows || c >= self.cols {
            None
        } else {
            Some((r, c))
        }
    }

    /// The cell at `(row, col)`, where it lies inside the grid.
    pub fn cell(&self, row: usize, col: usize) -> (res: Option<Cell>)
        requires
            self.wf(),
        ensures
            res is Some <==> self@.in_bounds(row as int, col as int),
            res matches Some(cell) ==> cell@ == self@.at(row as int, col as int),
    {
        if row >= self.rows || col >= self.cols {
            return None;
        }
        let i = self.index(row, col);
        Some(self.cells[i])
    }

    /// The row-major index of a position inside the grid.
    pub(crate) fn index(&self, row: usize, col: usize) -> (i: usize)
        requires
            self@.shaped(),
            self@.in_bounds(row as int, col as int),
        ensures
            i == self@.index_of(row as int, col as int),
            i < self@.cells.len(),
            self@.row_of(i as int) == row,
            self@.col_of(i as int) == col,
    {
        proof {
            crate::geometry::lemma_index_of_position(
                self.rows as int,
                self.cols as int,
                row as int,
                col as int,
            );
        }
        row * self.cols + col
    }
}

/// A quotient of positive 32-bit numbers is a 32-bit number, and at least 1
/// where the dividend is not below the divisor.
proof fn lemma_quotient_bounds(x: int, d: int)
    requires
        0 < d <= x <= i32::MAX,
    ensures
        1 <= x / d <= i32::MAX,
{
    vstd::arithmetic::div_mod::lemma_fundamental_div_mod(x, d);
    let q = x / d;
    let m = x % d;
    assert(1 <= q <= x) by (nonlinear_arith)
        requires
            0 < d <= x,
            x == d * q + m,
            0 <= m < d,
    {
        if q <= 0 {
            assert(d * q <= 0);
        }
        if q > x {
            assert(d * q >= q);
        }
    }
}

} // verus!
