//! Lazy, click-safe placement of the mines, and the neighbour counts.

use vstd::prelude::*;
use crate::board::{Board, Minesweeper};
use crate::cell::{Cell, CellType, CellView};
use crate::error::GameError;
use crate::geometry::{abs, in_safe_zone};

verus! {

/// Whether the index `i` occurs among the draws.
pub open spec fn drawn(draws: Seq<usize>, i: int) -> bool {
    exists|k: int| 0 <= k < draws.len() && #[trigger] draws[k] == i
}

/// The indices that are flagged.
pub open spec fn flagged(flags: Seq<bool>) -> Set<int> {
    Set::new(|i: int| 0 <= i < flags.len() && flags[i])
}

impl Board {
    /// Whether a mine may lie at the index `i` when `(cr, cc)` is revealed
    /// first: at a cell of the grid outside the 3×3 block centred on
    /// `(cr, cc)`.
    pub open spec fn eligible(self, i: int, cr: int, cc: int) -> bool {
        0 <= i < self.cells.len() && !self.index_in_safe_zone(i, cr, cc)
    }

    /// The cells that the draws name and at which a mine may lie.
    pub open spec fn eligible_draws(self, draws: Seq<usize>, cr: int, cc: int) -> Set<int> {
        Set::new(|i: int| self.eligible(i, cr, cc) && drawn(draws, i))
    }

    /// The same board with a mine at exactly the cells of `bombs`.
    pub open spec fn typed(self, bombs: Set<int>) -> Board {
        Board {
            cells: Seq::new(
                self.cells.len(),
                |i: int|
                    CellView {
                        cell_type: if bombs.contains(i) {
                            CellType::Bomb
                        } else {
                            CellType::Empty
                        },
                        state: self.cells[i].state,
                        bomb_neighbours: self.cells[i].bomb_neighbours,
                    },
            ),
            ..self
        }
    }

    /// The same board, generated: every cell holds the number of mines
    /// around it.
    pub open spec fn counted(self) -> Board {
        Board {
            generated: true,
            cells: Seq::new(
                self.cells.len(),
                |i: int|
                    CellView {
                        cell_type: self.cells[i].cell_type,
                        state: self.cells[i].state,
                        bomb_neighbours: self.bomb_neighbour_count(self.row_of(i), self.col_of(i)),
                    },
            ),
            ..self
        }
    }

    /// The board after generation with a mine at exactly the cells of
    /// `bombs`.
    pub open spec fn mined(self, bombs: Set<int>) -> Board {
        self.typed(bombs).counted()
    }

    /// Whether the board can be generated from the draws for a first reveal
    /// of `(cr, cc)`: the position lies inside the grid, and the draws name
    /// at least as many eligible cells as there are mines to place.
    pub open spec fn can_generate(self, draws: Seq<usize>, cr: int, cc: int) -> bool {
        self.in_bounds(cr, cc) && self.eligible_draws(draws, cr, cc).len() >= self.target_bombs()
    }

    /// Whether `mines` are the cells where generation from the draws, for a
    /// first reveal of `(cr, cc)`, places the mines: the eligible cells that
    /// a first part of the draws names, as long a part as it takes to name
    /// one cell for every mine.
    pub open spec fn places(self, mines: Set<int>, draws: Seq<usize>, cr: int, cc: int) -> bool {
        exists|k: int|
            0 <= k <= draws.len() && mines == #[trigger] self.eligible_draws(
                draws.take(k),
                cr,
                cc,
            ) && mines.len() == self.target_bombs()
    }

    /// Whether `after` is this board, generated from the draws for a first
    /// reveal of `(cr, cc)`.
    pub open spec fn generates(self, after: Board, draws: Seq<usize>, cr: int, cc: int) -> bool {
        self.places(after.bombs(), draws, cr, cc) && after == self.mined(after.bombs())
    }
}

/// One more draw adds its own index to the drawn ones, and nothing else.
proof fn lemma_drawn_step(draws: Seq<usize>, k: int)
    requires
        0 <= k < draws.len(),
    ensures
        forall|i: int| #[trigger]
            drawn(draws.take(k + 1), i) <==> drawn(draws.take(k), i) || draws[k] == i,
{
    let shorter = draws.take(k);
    let longer = draws.take(k + 1);
    assert forall|i: int| #[trigger]
        drawn(longer, i) <==> drawn(shorter, i) || draws[k] == i by {
        if drawn(shorter, i) {
            let j = choose|j: int| 0 <= j < shorter.len() && #[trigger] shorter[j] == i;
            assert(longer[j] == i);
        }
        if draws[k] == i {
            assert(longer[k] == i);
        }
        if drawn(longer, i) {
            let j = choose|j: int| 0 <= j < longer.len() && #[trigger] longer[j] == i;
            if j < k {
                assert(shorter[j] == i);
            }
        }
    }
}

/// What a part of the draws names, all of them name.
proof fn lemma_drawn_prefix(draws: Seq<usize>, k: int, i: int)
    requires
        0 <= k <= draws.len(),
        drawn(draws.take(k), i),
    ensures
        drawn(draws, i),
{
    let j = choose|j: int| 0 <= j < draws.take(k).len() && #[trigger] draws.take(k)[j] == i;
    assert(draws[j] == i);
}

impl Board {
    /// The eligible cells that the draws name are finitely many, and a part
    /// of the draws names no more of them than all the draws do.
    pub proof fn lemma_eligible_draws_grow(self, draws: Seq<usize>, k: int, cr: int, cc: int)
        requires
            0 <= k <= draws.len(),
        ensures
            self.eligible_draws(draws, cr, cc).finite(),
            self.eligible_draws(draws.take(k), cr, cc).finite(),
            self.eligible_draws(draws.take(k), cr, cc).subset_of(
                self.eligible_draws(draws, cr, cc),
            ),
            self.eligible_draws(draws.take(k), cr, cc).len() <= self.eligible_draws(
                draws,
                cr,
                cc,
            ).len(),
    {
        let all = self.eligible_draws(draws, cr, cc);
        let part = self.eligible_draws(draws.take(k), cr, cc);
        let range = vstd::set_lib::set_int_range(0, self.cells.len() as int);
        vstd::set_lib::lemma_int_range(0, self.cells.len() as int);
        vstd::set_lib::lemma_len_subset(all, range);
        assert forall|i: int| part.contains(i) implies all.contains(i) by {
            lemma_drawn_prefix(draws, k, i);
        }
        vstd::set_lib::lemma_len_subset(part, all);
    }
}

impl Board {
    /// A board mined at cells of its grid holds its mines at exactly those
    /// cells, and is valid where they are as many as the target asks for.
    pub proof fn lemma_mined(self, mines: Set<int>)
        requires
            self.shaped(),
            forall|i: int| mines.contains(i) ==> 0 <= i < self.cells.len(),
        ensures
            self.mined(mines).bombs() == mines,
            self.mined(mines).generated,
            mines.len() == self.target_bombs() ==> self.mined(mines).wf(),
    {
        let laid = self.typed(mines);
        let after = self.mined(mines);
        assert(after.bombs() =~= mines);
        assert forall|i: int| 0 <= i < after.cells.len() implies {
            &&& (#[trigger] after.cells[i]).bomb_neighbours == after.bomb_neighbour_count(
                after.row_of(i),
                after.col_of(i),
            )
            &&& 0 <= after.cells[i].bomb_neighbours <= 8
        } by {
            laid.lemma_same_bombs(after, laid.row_of(i), laid.col_of(i));
        }
    }

    /// The mines that generation places lie inside the grid and outside the
    /// 3×3 block centred on the revealed position.
    pub proof fn lemma_places_eligible(self, mines: Set<int>, draws: Seq<usize>, cr: int, cc: int)
        requires
            self.places(mines, draws, cr, cc),
        ensures
            forall|i: int| mines.contains(i) ==> self.eligible(i, cr, cc),
    {
    }
}

impl Minesweeper {
    /// 1 where `(r, c)` is a cell of the grid that holds a mine, else 0.
    fn bomb_at(&self, r: i64, c: i64) -> (n: i32)
        requires
            self@.shaped(),
        ensures
            n == self@.bomb_at(r as int, c as int),
    {
        if r < 0 || c < 0 || r >= self.rows as i64 || c >= self.cols as i64 {
            return 0;
        }
        let i = self.index(r as usize, c as usize);
        match self.cells[i].cell_type {
            CellType::Bomb => 1,
            CellType::Empty => 0,
        }
    }

    /// Whether `(row, col)` lies in the 3×3 block centred on
    /// `(c_row, c_col)`.
    fn near(&self, row: usize, col: usize, c_row: usize, c_col: usize) -> (res: bool)
        requires
            self@.shaped(),
            self@.in_bounds(row as int, col as int),
            self@.in_bounds(c_row as int, c_col as int),
        ensures
            res == in_safe_zone(row as int, col as int, c_row as int, c_col as int),
    {
        abs(row as i32 - c_row as i32) < 2 && abs(col as i32 - c_col as i32) < 2
    }

    /// The number of mines to place: the bomb density applied to the number
    /// of cells, rounded down.
    fn target(&self) -> (n: usize)
        requires
            self@.shaped(),
        ensures
            n == self@.target_bombs(),
            n <= self@.cells.len(),
    {
        let cells: u128 = self.cells.len() as u128;
        let percent: u128 = self.bomb_percent as u128;
        assert(cells * percent <= cells * 100) by (nonlinear_arith)
            requires
                0 <= cells,
                0 <= percent <= 100,
        ;
        assert(self@.rows * self@.cols * self@.bomb_percent == cells * percent) by (
            nonlinear_arith)
            requires
                self@.rows * self@.cols == cells,
                self@.bomb_percent == percent,
        ;
        ((cells * percent) / 100) as usize
    }

    /// The position that a draw names, where it names a cell of the grid
    /// that has not been taken for a mine yet.
    fn get_empty_cell(&self, taken: &Vec<bool>, draw: usize) -> (res: Option<(usize, usize)>)
        requires
            self@.shaped(),
            taken@.len() == self@.cells.len(),
        ensures
            res is Some <==> draw < self@.cells.len() && !taken@[draw as int],
            res matches Some(p) ==> p.0 == self@.row_of(draw as int) && p.1 == self@.col_of(
                draw as int,
            ) && self@.in_bounds(p.0 as int, p.1 as int),
    {
        if draw >= self.cells.len() {
            return None;
        }
        if taken[draw] {
            return None;
        }
        proof {
            self@.lemma_position(draw as int);
        }
        Some((draw / self.cols, draw % self.cols))
    }

    /// Goes through the draws until the target number of mines has its
    /// cells: a draw is taken where it names a cell of the grid that has not
    /// been taken yet and lies outside the 3×3 block centred on
    /// `(c_row, c_col)`, and passed over otherwise. Gives the cells taken,
    /// or nothing where the draws run out first.
    fn choose_bombs(&self, c_row: usize, c_col: usize, draws: &Vec<usize>) -> (res: Option<
        Vec<bool>,
    >)
        requires
            self@.shaped(),
            self@.in_bounds(c_row as int, c_col as int),
        ensures
            res is Some <==> self@.can_generate(draws@, c_row as int, c_col as int),
            res matches Some(flags) ==> {
                &&& flags@.len() == self@.cells.len()
                &&& self@.places(flagged(flags@), draws@, c_row as int, c_col as int)
            },
    {
        let ghost cr = c_row as int;
        let ghost cc = c_col as int;
        let total = self.cells.len();
        let target = self.target();
        let mut flags: Vec<bool> = Vec::new();
        let mut i: usize = 0;
        while i < total
            invariant
                i <= total,
                flags@.len() == i,
                forall|j: int| 0 <= j < i ==> !(#[trigger] flags@[j]),
            decreases total - i,
        {
            flags.push(false);
            i = i + 1;
        }
        let mut placed: usize = 0;
        let mut k: usize = 0;
        proof {
            assert(flagged(flags@) =~= Set::<int>::empty());
            assert(self@.eligible_draws(draws@.take(0), cr, cc) =~= Set::<int>::empty());
        }
        while placed < target && k < draws.len()
            invariant
                self@.shaped(),
                self@.in_bounds(cr, cc),
                cr == c_row,
                cc == c_col,
                total == self@.cells.len(),
                target == self@.target_bombs(),
                flags@.len() == total,
                k <= draws@.len(),
                placed <= target <= total,
                flagged(flags@).finite(),
                flagged(flags@).len() == placed,
                flagged(flags@) == self@.eligible_draws(draws@.take(k as int), cr, cc),
            decreases draws@.len() - k,
        {
            let draw = draws[k];
            let ghost before = flags@;
            proof {
                lemma_drawn_step(draws@, k as int);
            }
            let ghost so_far = self@.eligible_draws(draws@.take(k as int), cr, cc);
            let ghost next = self@.eligible_draws(draws@.take(k + 1), cr, cc);
            let accept = match self.get_empty_cell(&flags, draw) {
                Some((row, col)) => !self.near(row, col, c_row, c_col),
                None => false,
            };
            if accept {
                flags.set(draw, true);
                placed = placed + 1;
                proof {
                    assert(flagged(flags@) =~= flagged(before).insert(draw as int));
                    assert(next =~= so_far.insert(draw as int));
                }
            } else {
                proof {
                    assert(next =~= so_far);
                }
            }
            k = k + 1;
        }
        proof {
            self@.lemma_eligible_draws_grow(draws@, k as int, cr, cc);
            if k == draws@.len() {
                assert(draws@.take(k as int) =~= draws@);
            }
        }
        if placed < target {
            None
        } else {
            Some(flags)
        }
    }

    /// The number of mines among the up to eight neighbours of
    /// `(row, col)`. Positions outside the grid hold none.
    pub fn neighbours_with_bombs(&self, row: usize, col: usize) -> (bombs: i32)
        requires
            self@.shaped(),
        ensures
            bombs == self@.bomb_neighbour_count(row as int, col as int),
            0 <= bombs <= 8,
    {
        if row > self.rows || col > self.cols {
            return 0;
        }
        let r: i64 = row as i64;
        let c: i64 = col as i64;
        self.bomb_at(r - 1, c - 1) + self.bomb_at(r - 1, c) + self.bomb_at(r - 1, c + 1)
            + self.bomb_at(r, c - 1) + self.bomb_at(r, c + 1) + self.bomb_at(r + 1, c - 1)
            + self.bomb_at(r + 1, c) + self.bomb_at(r + 1, c + 1)
    }

    /// Puts a mine into exactly the flagged cells.
    fn place_bombs(&mut self, flags: &Vec<bool>)
        requires
            old(self)@.shaped(),
            flags@.len() == old(self)@.cells.len(),
        ensures
            final(self)@ == old(self)@.typed(flagged(flags@)),
    {
        let ghost origin = self@;
        let ghost goal = origin.typed(flagged(flags@));
        let total = self.cells.len();
        let mut i: usize = 0;
        while i < total
            invariant
                i <= total,
                total == origin.cells.len(),
                flags@.len() == total,
                goal == origin.typed(flagged(flags@)),
                self@ == (Board { cells: self@.cells, ..origin }),
                self@.cells.len() == total,
                forall|j: int| 0 <= j < i ==> (#[trigger] self@.cells[j]) == goal.cells[j],
                forall|j: int| i <= j < total ==> (#[trigger] self@.cells[j]) == origin.cells[j],
            decreases total - i,
        {
            assert(self@.cells[i as int] == self.cells@[i as int]@);
            let mut cell: Cell = self.cells[i];
            cell.cell_type = if flags[i] {
                CellType::Bomb
            } else {
                CellType::Empty
            };
            self.set_cell(i, cell);
            i = i + 1;
        }
        assert(self@.cells =~= goal.cells);
    }

    /// Stores in every cell the number of mines around it, and records that
    /// the board has been generated.
    fn count_neighbours(&mut self)
        requires
            old(self)@.shaped(),
        ensures
            final(self)@ == old(self)@.counted(),
    {
        let ghost origin = self@;
        let ghost goal = origin.counted();
        let total = self.cells.len();
        let mut i: usize = 0;
        while i < total
            invariant
                i <= total,
                total == origin.cells.len(),
                origin.shaped(),
                goal == origin.counted(),
                self@ == (Board { cells: self@.cells, ..origin }),
                self@.cells.len() == total,
                forall|j: int| 0 <= j < i ==> (#[trigger] self@.cells[j]) == goal.cells[j],
                forall|j: int| i <= j < total ==> (#[trigger] self@.cells[j]) == origin.cells[j],
            decreases total - i,
        {
            let row = i / self.cols;
            let col = i % self.cols;
            let count = self.neighbours_with_bombs(row, col);
            proof {
                assert forall|j: int| 0 <= j < total implies {
                    (#[trigger] self@.cells[j]).cell_type == origin.cells[j].cell_type
                } by {
                    if j < i {
                        assert(self@.cells[j] == goal.cells[j]);
                    }
                }
                origin.lemma_same_bombs(self@, row as int, col as int);
            }
            assert(self@.cells[i as int] == self.cells@[i as int]@);
            let mut cell: Cell = self.cells[i];
            cell.bomb_neighbours = count;
            self.set_cell(i, cell);
            i = i + 1;
        }
        self.generated = true;
        assert(self@.cells =~= goal.cells);
    }

    /// Places the mines for a first reveal of `(c_row, c_col)` and counts
    /// every cell's neighbours.
    ///
    /// The draws are cell indices in row-major order, taken from a random
    /// source by the caller. They are gone through in order until the target
    /// number of mines is placed. A draw places a mine where it names a cell
    /// of the grid that holds none yet and lies outside the 3×3 block
    /// centred on `(c_row, c_col)`; any other draw is passed over. So the
    /// mines lie at the eligible cells that some first part of the draws
    /// names, there are exactly [`Board::target_bombs`] of them, and none
    /// lies next to or at the revealed cell.
    ///
    /// A board that has been generated is left as it is. Otherwise the call
    /// fails, and changes nothing, with [`GameError::Index`] where
    /// `(c_row, c_col)` lies outside the grid, and with
    /// [`GameError::GenerationExhausted`] where the draws name fewer
    /// eligible cells than there are mines to place.
    pub fn generate_bombs(&mut self, c_row: usize, c_col: usize, draws: &Vec<usize>) -> (res:
        Result<(), GameError>)
        requires
            old(self).wf(),
        ensures
            final(self).wf(),
            old(self)@.generated ==> res is Ok && final(self)@ == old(self)@,
            !old(self)@.generated ==> match res {
                Ok(()) => {
                    &&& old(self)@.can_generate(draws@, c_row as int, c_col as int)
                    &&& old(self)@.generates(final(self)@, draws@, c_row as int, c_col as int)
                },
                Err(e) => {
                    &&& !old(self)@.can_generate(draws@, c_row as int, c_col as int)
                    &&& final(self)@ == old(self)@
                    &&& e == if old(self)@.in_bounds(c_row as int, c_col as int) {
                        GameError::GenerationExhausted
                    } else {
                        GameError::Index
                    }
                },
            },
            res is Ok ==> final(self)@.generated,
            res is Ok ==> final(self)@.bombs().len() == old(self)@.target_bombs(),
            !old(self)@.generated && res is Ok ==> forall|r: int, c: int|
                in_safe_zone(r, c, c_row as int, c_col as int) ==> !#[trigger] final(self)@.is_bomb(
                    r,
                    c,
                ),
    {
        if self.generated {
            return Ok(());
        }
        if c_row >= self.rows || c_col >= self.cols {
            return Err(GameError::Index);
        }
        let ghost origin = self@;
        let ghost cr = c_row as int;
        let ghost cc = c_col as int;
        match self.choose_bombs(c_row, c_col, draws) {
            None => Err(GameError::GenerationExhausted),
            Some(flags) => {
                self.place_bombs(&flags);
                self.count_neighbours();
                proof {
                    let mines = flagged(flags@);
                    origin.lemma_places_eligible(mines, draws@, cr, cc);
                    origin.lemma_mined(mines);
                    assert forall|r: int, c: int| in_safe_zone(r, c, cr, cc) implies {
                        !#[trigger] self@.is_bomb(r, c)
                    } by {
                        if self@.in_bounds(r, c) {
                            self@.lemma_index(r, c);
                        }
                    }
                }
                Ok(())
            },
        }
    }
}

} // verus!
