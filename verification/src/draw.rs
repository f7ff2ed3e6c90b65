//! The projection of the board onto draw commands.

use vstd::prelude::*;
use crate::board::{Board, Minesweeper};
use crate::cell::{Cell, CellState, CellType, CellView};

verus! {

/// One drawing operation, in device pixels.
#[derive(Clone, Copy, Debug, PartialEq, Eq, Structural)]
pub enum DrawCommand {
    /// A filled axis-aligned rectangle with its colour.
    FillRect { x: i64, y: i64, w: i64, h: i64, r: i32, g: i32, b: i32, a: i32 },
    /// A numeral drawn at a position.
    FillNum { x: i64, y: i64, num: i32 },
}

/// The mathematical value of a [`DrawCommand`].
pub enum Draw {
    FillRect { x: int, y: int, w: int, h: int, r: int, g: int, b: int, a: int },
    FillNum { x: int, y: int, num: int },
}

impl View for DrawCommand {
    type V = Draw;

    open spec fn view(&self) -> Draw {
        match *self {
            DrawCommand::FillRect { x, y, w, h, r, g, b, a } => Draw::FillRect {
                x: x as int,
                y: y as int,
                w: w as int,
                h: h as int,
                r: r as int,
                g: g as int,
                b: b as int,
                a: a as int,
            },
            DrawCommand::FillNum { x, y, num } => Draw::FillNum {
                x: x as int,
                y: y as int,
                num: num as int,
            },
        }
    }
}

/// The values of a list of draw commands, in order.
pub open spec fn draws_of(commands: Seq<DrawCommand>) -> Seq<Draw> {
    commands.map_values(|d: DrawCommand| d@)
}

impl Board {
    /// The distance between a cell's edge and its rectangle: the border,
    /// doubled for a marked cell so that it is drawn visibly smaller.
    pub open spec fn inset(self, cell: CellView) -> int {
        if cell.state == CellState::Marked {
            2 * self.cell_border
        } else {
            self.cell_border
        }
    }

    /// The rectangle of the cell at `(r, c)`: neutral grey while closed,
    /// green while marked, red for an open mine, light for an open empty
    /// cell.
    pub open spec fn cell_rect(self, r: int, c: int) -> Draw {
        let cell = self.at(r, c);
        let inset = self.inset(cell);
        let (red, green, blue) = match cell.state {
            CellState::Close => (100int, 100int, 100int),
            CellState::Marked => (0int, 100int, 0int),
            CellState::Open => match cell.cell_type {
                CellType::Bomb => (200int, 50int, 50int),
                CellType::Empty => (200int, 200int, 200int),
            },
        };
        Draw::FillRect {
            x: c * self.cell_size + inset,
            y: r * self.cell_size + inset,
            w: self.cell_size - 2 * inset,
            h: self.cell_size - 2 * inset,
            r: red,
            g: green,
            b: blue,
            a: 255,
        }
    }

    /// Whether the cell shows its count: it is open, empty and has a mine
    /// next to it.
    pub open spec fn shows_count(self, cell: CellView) -> bool {
        cell.state == CellState::Open && cell.cell_type == CellType::Empty && cell.bomb_neighbours
            > 0
    }

    /// The numeral of the cell at `(r, c)`, a quarter of a cell to the right
    /// of and three quarters of a cell below the cell's corner.
    pub open spec fn cell_numeral(self, r: int, c: int) -> Draw {
        Draw::FillNum {
            x: c * self.cell_size + self.cell_size / 4,
            y: r * self.cell_size + (self.cell_size * 3) / 4,
            num: self.at(r, c).bomb_neighbours,
        }
    }

    /// The commands that draw the cell at `(r, c)`: its rectangle, followed
    /// by its numeral where it shows one.
    pub open spec fn cell_commands(self, r: int, c: int) -> Seq<Draw> {
        if self.shows_count(self.at(r, c)) {
            seq![self.cell_rect(r, c), self.cell_numeral(r, c)]
        } else {
            seq![self.cell_rect(r, c)]
        }
    }

    /// The commands that draw the first `upto` cells of row `r`, left to
    /// right.
    pub open spec fn row_commands(self, r: int, upto: int) -> Seq<Draw>
        decreases upto,
    {
        if upto <= 0 {
            Seq::empty()
        } else {
            self.row_commands(r, upto - 1) + self.cell_commands(r, upto - 1)
        }
    }

    /// The commands that draw the first `upto` rows, top to bottom.
    pub open spec fn grid_commands(self, upto: int) -> Seq<Draw>
        decreases upto,
    {
        if upto <= 0 {
            Seq::empty()
        } else {
            self.grid_commands(upto - 1) + self.row_commands(upto - 1, self.cols as int)
        }
    }

    /// The dark rectangle that covers the whole screen.
    pub open spec fn background(self) -> Draw {
        Draw::FillRect {
            x: 0,
            y: 0,
            w: self.screen_width,
            h: self.screen_height,
            r: 20,
            g: 20,
            b: 20,
            a: 255,
        }
    }

    /// The commands that draw the whole board: the background, then every
    /// cell in row-major order.
    pub open spec fn frame(self) -> Seq<Draw> {
        seq![self.background()] + self.grid_commands(self.rows as int)
    }
}

/// The product of two non-negative 32-bit numbers stays far inside 64 bits.
proof fn lemma_product_bounds(a: int, b: int)
    requires
        0 <= a <= i32::MAX,
        0 <= b <= i32::MAX,
    ensures
        0 <= a * b <= 0x3fff_ffff_0000_0001,
{
    assert(0 <= a * b <= 0x7fff_ffff * 0x7fff_ffff) by (nonlinear_arith)
        requires
            0 <= a <= 0x7fff_ffff,
            0 <= b <= 0x7fff_ffff,
    ;
}

impl Minesweeper {
    /// Appends the commands that draw the cell at `(row, col)`.
    fn render_cell(&self, row: usize, col: usize, out: &mut Vec<DrawCommand>)
        requires
            self@.shaped(),
            self@.in_bounds(row as int, col as int),
        ensures
            draws_of(final(out)@) == draws_of(old(out)@) + self@.cell_commands(
                row as int,
                col as int,
            ),
    {
        let i = self.index(row, col);
        let cell: Cell = self.cells[i];
        let size: i64 = self.cell_size as i64;
        let border: i64 = self.cell_border as i64;
        proof {
            lemma_product_bounds(col as int, size as int);
            lemma_product_bounds(row as int, size as int);
        }
        let left: i64 = col as i64 * size;
        let top: i64 = row as i64 * size;
        let inset: i64 = match cell.state {
            CellState::Marked => 2 * border,
            _ => border,
        };
        let (r, g, b): (i32, i32, i32) = match cell.state {
            CellState::Close => (100, 100, 100),
            CellState::Marked => (0, 100, 0),
            CellState::Open => match cell.cell_type {
                CellType::Bomb => (200, 50, 50),
                CellType::Empty => (200, 200, 200),
            },
        };
        let rect = DrawCommand::FillRect {
            x: left + inset,
            y: top + inset,
            w: size - 2 * inset,
            h: size - 2 * inset,
            r,
            g,
            b,
            a: 255,
        };
        assert(rect@ == self@.cell_rect(row as int, col as int));
        let ghost before = out@;
        out.push(rect);
        let shows: bool = match (cell.state, cell.cell_type) {
            (CellState::Open, CellType::Empty) => cell.bomb_neighbours > 0,
            _ => false,
        };
        if shows {
            let numeral = DrawCommand::FillNum {
                x: left + size / 4,
                y: top + (size * 3) / 4,
                num: cell.bomb_neighbours,
            };
            assert(numeral@ == self@.cell_numeral(row as int, col as int));
            out.push(numeral);
            assert(draws_of(out@) =~= draws_of(before) + seq![rect@, numeral@]);
        } else {
            assert(draws_of(out@) =~= draws_of(before) + seq![rect@]);
        }
    }

    /// The commands that draw every cell, in row-major order: see
    /// [`Board::cell_commands`] for what a cell contributes.
    pub fn render(&self) -> (out: Vec<DrawCommand>)
        requires
            self.wf(),
        ensures
            draws_of(out@) == self@.grid_commands(self@.rows as int),
    {
        let mut out: Vec<DrawCommand> = Vec::new();
        self.render_into(&mut out);
        assert(draws_of(out@) =~= self@.grid_commands(self@.rows as int));
        out
    }

    /// Appends the commands that draw every cell, in row-major order.
    pub(crate) fn render_into(&self, out: &mut Vec<DrawCommand>)
        requires
            self@.shaped(),
        ensures
            draws_of(final(out)@) == draws_of(old(out)@) + self@.grid_commands(self@.rows as int),
    {
        let ghost start = draws_of(out@);
        let mut row: usize = 0;
        assert(draws_of(out@) =~= start + self@.grid_commands(0));
        while row < self.rows
            invariant
                self@.shaped(),
                row <= self.rows,
                draws_of(out@) == start + self@.grid_commands(row as int),
            decreases self.rows - row,
        {
            let ghost row_start = draws_of(out@);
            let mut col: usize = 0;
            assert(draws_of(out@) =~= row_start + self@.row_commands(row as int, 0));
            while col < self.cols
                invariant
                    self@.shaped(),
                    row < self.rows,
                    col <= self.cols,
                    draws_of(out@) == row_start + self@.row_commands(row as int, col as int),
                decreases self.cols - col,
            {
                self.render_cell(row, col, out);
                assert(draws_of(out@) =~= row_start + self@.row_commands(
                    row as int,
                    col as int + 1,
                ));
                col = col + 1;
            }
            assert(draws_of(out@) =~= start + self@.grid_commands(row as int + 1));
            row = row + 1;
        }
    }
}

} // verus!
