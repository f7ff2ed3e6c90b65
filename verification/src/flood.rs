//! Opening cells: the region that a reveal opens, and the flood fill that
//! opens it.

use vstd::prelude::*;
use crate::board::{Board, Minesweeper};
use crate::cell::{Cell, CellState, CellType, CellView};
use crate::error::GameError;
use crate::geometry::adjacent;

verus! {

impl Board {
    /// Whether `(r, c)` is a cell of the grid that is open.
    pub open spec fn is_open(self, r: int, c: int) -> bool {
        self.in_bounds(r, c) && self.at(r, c).state == CellState::Open
    }

    /// Whether the flood may open `(r, c)`: a cell of the grid that holds no
    /// mine and is not open yet. A mark does not protect a cell.
    pub open spec fn openable(self, r: int, c: int) -> bool {
        self.in_bounds(r, c) && self.at(r, c).cell_type != CellType::Bomb && self.at(r, c).state
            != CellState::Open
    }

    /// Whether the flood goes on from `(r, c)` once it is there: a cell of
    /// the grid with no mine next to it.
    pub open spec fn spreads(self, r: int, c: int) -> bool {
        self.in_bounds(r, c) && self.at(r, c).bomb_neighbours == 0
    }

    /// Whether a reveal of `(sr, sc)` gets to `(r, c)` in at most `n` steps.
    /// It is at `(sr, sc)` after none. A step leads from a cell that was
    /// reached, and from which the flood goes on, to an adjacent cell that
    /// may be opened.
    pub open spec fn reached_within(self, sr: int, sc: int, r: int, c: int, n: nat) -> bool
        decreases n,
    {
        if n == 0 {
            r == sr && c == sc
        } else {
            ||| self.reached_within(sr, sc, r, c, (n - 1) as nat)
            ||| self.openable(r, c) && exists|qr: int, qc: int|
                #[trigger] adjacent(qr, qc, r, c) && self.spreads(qr, qc) && self.reached_within(
                    sr,
                    sc,
                    qr,
                    qc,
                    (n - 1) as nat,
                )
        }
    }

    /// Whether a reveal of `(sr, sc)` gets to `(r, c)`: the revealed cell
    /// itself, the connected region of cells without a mine next to them
    /// around it, and the cells that border that region.
    pub open spec fn reached(self, sr: int, sc: int, r: int, c: int) -> bool {
        exists|n: nat| self.reached_within(sr, sc, r, c, n)
    }

    /// The board after a reveal of `(sr, sc)`: every cell that the reveal
    /// gets to is open, and nothing else has changed.
    pub open spec fn revealed(self, sr: int, sc: int) -> Board {
        Board {
            cells: Seq::new(
                self.cells.len(),
                |i: int|
                    if self.reached(sr, sc, self.row_of(i), self.col_of(i)) {
                        CellView {
                            cell_type: self.cells[i].cell_type,
                            state: CellState::Open,
                            bomb_neighbours: self.cells[i].bomb_neighbours,
                        }
                    } else {
                        self.cells[i]
                    },
            ),
            ..self
        }
    }

    /// A reveal changes the states of cells only.
    pub proof fn lemma_revealed_same_but_states(self, sr: int, sc: int)
        ensures
            self.same_but_states(self.revealed(sr, sc)),
    {
    }
}

/// A reveal under way: the board that it began on, the revealed position,
/// and the index of the cell in hand (negative while none is).
pub(crate) ghost struct Flood {
    pub origin: Board,
    pub sr: int,
    pub sc: int,
    pub cur: int,
}

impl Flood {
    /// The index of the revealed cell.
    spec fn start(self) -> int {
        self.origin.index_of(self.sr, self.sc)
    }

    /// The same reveal with no cell in hand.
    spec fn idle(self) -> Flood {
        Flood { cur: -1, ..self }
    }

    /// Whether the reveal gets to the cell with index `i`.
    spec fn reaches(self, i: int) -> bool {
        self.origin.reached(self.sr, self.sc, self.origin.row_of(i), self.origin.col_of(i))
    }

    /// Whether the flood is done with `(r, c)`: unless the cell was not to
    /// be opened at all, it is open.
    spec fn handled(self, now: Board, r: int, c: int) -> bool {
        self.origin.openable(r, c) ==> now.is_open(r, c)
    }

    /// Whether the flood is done with the eight positions around `(r, c)`.
    spec fn neighbours_handled(self, now: Board, r: int, c: int) -> bool {
        &&& self.handled(now, r - 1, c - 1)
        &&& self.handled(now, r - 1, c)
        &&& self.handled(now, r - 1, c + 1)
        &&& self.handled(now, r, c - 1)
        &&& self.handled(now, r, c + 1)
        &&& self.handled(now, r + 1, c - 1)
        &&& self.handled(now, r + 1, c)
        &&& self.handled(now, r + 1, c + 1)
    }

    /// Whether the flood has gone on from the cell with index `i`: the cell
    /// spreads, this reveal opened it or began at it, and it neither waits
    /// on the worklist nor is the cell in hand.
    spec fn settled(self, now: Board, stack: Seq<usize>, i: int) -> bool {
        let origin = self.origin;
        &&& 0 <= i < origin.cells.len()
        &&& origin.cells[i].bomb_neighbours == 0
        &&& now.cells[i].state == CellState::Open
        &&& (i == self.start() || (origin.cells[i].cell_type != CellType::Bomb
            && origin.cells[i].state != CellState::Open))
        &&& !on_stack(stack, i)
        &&& i != self.cur
    }

    /// What holds of the board `now` and of the worklist while the reveal is
    /// under way. Only states have changed, and only to open. Every cell
    /// that was opened is one that the reveal gets to. Every cell on the
    /// worklist is open, spreads and is one that the reveal gets to. And
    /// around every cell from which the flood has gone on, what may be
    /// opened is open.
    spec fn inv(self, now: Board, stack: Seq<usize>) -> bool {
        let origin = self.origin;
        &&& origin.shaped()
        &&& origin.in_bounds(self.sr, self.sc)
        &&& origin.same_but_states(now)
        &&& now.unopened().finite()
        &&& now.cells[self.start()].state == CellState::Open
        &&& forall|i: int|
            0 <= i < origin.cells.len() ==> (#[trigger] now.cells[i]).state
                == origin.cells[i].state || now.cells[i].state == CellState::Open
        &&& forall|i: int|
            0 <= i < origin.cells.len() && (#[trigger] now.cells[i]).state
                != origin.cells[i].state ==> self.reaches(i)
        &&& forall|k: int|
            0 <= k < stack.len() ==> {
                &&& (#[trigger] stack[k]) < origin.cells.len()
                &&& origin.cells[stack[k] as int].bomb_neighbours == 0
                &&& now.cells[stack[k] as int].state == CellState::Open
                &&& self.reaches(stack[k] as int)
            }
        &&& forall|i: int| #[trigger]
            self.settled(now, stack, i) ==> self.neighbours_handled(
                now,
                origin.row_of(i),
                origin.col_of(i),
            )
    }
}

/// Whether the index `i` waits on the worklist.
spec fn on_stack(stack: Seq<usize>, i: int) -> bool {
    exists|k: int| 0 <= k < stack.len() && #[trigger] stack[k] == i
}

/// Once the worklist is empty, every cell that the reveal gets to is open.
proof fn lemma_flood_complete(from: Flood, now: Board, r: int, c: int, n: nat)
    requires
        from.cur < 0,
        from.inv(now, Seq::empty()),
        from.origin.reached_within(from.sr, from.sc, r, c, n),
    ensures
        now.is_open(r, c),
        (r == from.sr && c == from.sc) || from.origin.openable(r, c),
    decreases n,
{
    let Flood { origin, sr, sc, cur } = from;
    origin.lemma_index(sr, sc);
    if n == 0 {
    } else if origin.reached_within(sr, sc, r, c, (n - 1) as nat) {
        lemma_flood_complete(from, now, r, c, (n - 1) as nat);
    } else {
        let (qr, qc) = choose|qr: int, qc: int|
            #[trigger] adjacent(qr, qc, r, c) && origin.spreads(qr, qc) && origin.reached_within(
                sr,
                sc,
                qr,
                qc,
                (n - 1) as nat,
            );
        lemma_flood_complete(from, now, qr, qc, (n - 1) as nat);
        origin.lemma_index(qr, qc);
        let qi = origin.index_of(qr, qc);
        assert(!on_stack(Seq::<usize>::empty(), qi));
        assert(from.settled(now, Seq::empty(), qi));
        assert(from.neighbours_handled(now, qr, qc));
        assert(from.handled(now, r, c));
    }
}

/// The cells of a board that are not open are finitely many.
proof fn lemma_unopened_finite(board: Board)
    ensures
        board.unopened().finite(),
{
    vstd::set_lib::lemma_int_range(0, board.cells.len() as int);
    vstd::set_lib::lemma_len_subset(
        board.unopened(),
        vstd::set_lib::set_int_range(0, board.cells.len() as int),
    );
}

/// A cell next to a cell that was reached, and from which the flood goes on,
/// is reached too where it may be opened.
proof fn lemma_reached_step(origin: Board, sr: int, sc: int, qr: int, qc: int, r: int, c: int)
    requires
        origin.reached(sr, sc, qr, qc),
        origin.spreads(qr, qc),
        adjacent(qr, qc, r, c),
        origin.openable(r, c),
    ensures
        origin.reached(sr, sc, r, c),
{
    let n = choose|n: nat| origin.reached_within(sr, sc, qr, qc, n);
    assert(origin.reached_within(sr, sc, qr, qc, ((n + 1) - 1) as nat));
    assert(origin.reached_within(sr, sc, r, c, n + 1));
}

impl Minesweeper {
    /// One step of the flood from the cell in hand to the position
    /// `(nr, nc)` next to it: a cell there that may be opened is opened, and
    /// waits on the worklist where the flood goes on from it.
    fn visit(&mut self, nr: i32, nc: i32, stack: &mut Vec<usize>, Ghost(from): Ghost<Flood>)
        requires
            from.inv(old(self)@, old(stack)@),
            0 <= from.cur < from.origin.cells.len(),
            from.origin.cells[from.cur].bomb_neighbours == 0,
            from.reaches(from.cur),
            adjacent(
                from.origin.row_of(from.cur),
                from.origin.col_of(from.cur),
                nr as int,
                nc as int,
            ),
        ensures
            from.inv(final(self)@, final(stack)@),
            from.handled(final(self)@, nr as int, nc as int),
            forall|r: int, c: int| #[trigger]
                old(self)@.is_open(r, c) ==> final(self)@.is_open(r, c),
            final(self)@.unopened().len() + final(stack)@.len() <= old(self)@.unopened().len()
                + old(stack)@.len(),
    {
        let ghost Flood { origin, sr, sc, cur } = from;
        let ghost before = self@;
        let ghost waiting = stack@;
        match self.clamp(nr, nc) {
            None => {},
            Some((r, c)) => {
                let i = self.index(r, c);
                let cell: Cell = self.cells[i];
                if cell.state != CellState::Open && cell.cell_type != CellType::Bomb {
                    self.set_state(i, CellState::Open);
                    if cell.bomb_neighbours == 0 {
                        stack.push(i);
                    }
                    proof {
                        let now = self@;
                        origin.lemma_position(cur);
                        origin.lemma_index(sr, sc);
                        assert(origin.at(r as int, c as int) == origin.cells[i as int]);
                        lemma_reached_step(
                            origin,
                            sr,
                            sc,
                            origin.row_of(cur),
                            origin.col_of(cur),
                            r as int,
                            c as int,
                        );
                        assert(now.unopened() =~= before.unopened().remove(i as int));
                        assert forall|pr: int, pc: int| #[trigger]
                            before.is_open(pr, pc) implies now.is_open(pr, pc) by {
                            before.lemma_index(pr, pc);
                        }
                        assert forall|j: int| #[trigger] from.settled(now, stack@, j) implies {
                            from.neighbours_handled(now, origin.row_of(j), origin.col_of(j))
                        } by {
                            // The cell just opened waits on the worklist where it
                            // spreads, so `j` is another cell, settled before.
                            if j == i && cell.bomb_neighbours == 0 {
                                assert(stack@[stack@.len() - 1] == i);
                            }
                            if on_stack(waiting, j) {
                                let k = choose|k: int|
                                    0 <= k < waiting.len() && #[trigger] waiting[k] == j;
                                assert(stack@[k] == j);
                            }
                            assert(from.settled(before, waiting, j));
                        }
                    }
                }
            },
        }
    }

    /// Opens the cell at `(row, col)` and floods from it: where no mine lies
    /// next to the cell, the cells around it that hold no mine are opened
    /// too, and so on from each of them that has no mine next to it. The
    /// revealed cell is opened whatever it holds; a mine is opened in no
    /// other way. A mark does not keep a cell closed.
    ///
    /// Fails with [`GameError::Index`], and changes nothing, exactly when
    /// `(row, col)` lies outside the grid.
    pub fn open_cell(&mut self, row: usize, col: usize) -> (res: Result<(), GameError>)
        requires
            old(self).wf(),
        ensures
            final(self).wf(),
            res is Ok <==> old(self)@.in_bounds(row as int, col as int),
            res is Ok ==> final(self)@ == old(self)@.revealed(row as int, col as int),
            res matches Err(e) ==> e == GameError::Index && final(self)@ == old(self)@,
    {
        if row >= self.rows || col >= self.cols {
            return Err(GameError::Index);
        }
        let ghost origin = self@;
        let ghost idle = Flood { origin, sr: row as int, sc: col as int, cur: -1 };
        let start = self.index(row, col);
        proof {
            lemma_unopened_finite(origin);
        }
        self.set_state(start, CellState::Open);
        assert(self.cells@.len() == self@.cells.len());
        let mut stack: Vec<usize> = Vec::new();
        if self.cells[start].bomb_neighbours == 0 {
            stack.push(start);
        }
        proof {
            let now = self@;
            assert(origin.reached_within(idle.sr, idle.sc, idle.sr, idle.sc, 0));
            vstd::set_lib::lemma_len_subset(now.unopened(), origin.unopened());
            assert forall|j: int| #[trigger] idle.settled(now, stack@, j) implies {
                idle.neighbours_handled(now, origin.row_of(j), origin.col_of(j))
            } by {
                if j == start {
                    assert(stack@[0] == start);
                }
            }
        }
        // Every cell is opened once at most, and waits on the worklist once
        // at most: when it is opened.
        while stack.len() > 0
            invariant
                idle == (Flood { origin, sr: row as int, sc: col as int, cur: -1 }),
                idle.inv(self@, stack@),
                start == idle.start(),
            decreases self@.unopened().len() + stack@.len(),
        {
            let ghost waiting = stack@;
            let cur = stack.pop().unwrap();
            let ghost from = Flood { cur: cur as int, ..idle };
            proof {
                origin.lemma_position(cur as int);
                assert(waiting[waiting.len() - 1] == cur);
                assert forall|j: int| #[trigger] from.settled(self@, stack@, j) implies {
                    idle.settled(self@, waiting, j)
                } by {
                    if on_stack(waiting, j) {
                        let k = choose|k: int|
                            0 <= k < waiting.len() && #[trigger] waiting[k] == j;
                        if k < waiting.len() - 1 {
                            assert(stack@[k] == j);
                        }
                    }
                }
            }
            let r0: i32 = (cur / self.cols) as i32;
            let c0: i32 = (cur % self.cols) as i32;
            self.visit(r0 - 1, c0 - 1, &mut stack, Ghost(from));
            self.visit(r0 - 1, c0, &mut stack, Ghost(from));
            self.visit(r0 - 1, c0 + 1, &mut stack, Ghost(from));
            self.visit(r0, c0 - 1, &mut stack, Ghost(from));
            self.visit(r0, c0 + 1, &mut stack, Ghost(from));
            self.visit(r0 + 1, c0 - 1, &mut stack, Ghost(from));
            self.visit(r0 + 1, c0, &mut stack, Ghost(from));
            self.visit(r0 + 1, c0 + 1, &mut stack, Ghost(from));
            proof {
                assert(from.neighbours_handled(self@, r0 as int, c0 as int));
                assert forall|j: int| #[trigger] idle.settled(self@, stack@, j) implies {
                    idle.neighbours_handled(self@, origin.row_of(j), origin.col_of(j))
                } by {
                    if j != cur {
                        assert(from.settled(self@, stack@, j));
                    }
                }
            }
        }
        proof {
            let now = self@;
            let goal = origin.revealed(idle.sr, idle.sc);
            assert(stack@ =~= Seq::<usize>::empty());
            assert forall|i: int| 0 <= i < now.cells.len() implies now.cells[i]
                == goal.cells[i] by {
                origin.lemma_position(i);
                if idle.reaches(i) {
                    let n = choose|n: nat|
                        origin.reached_within(
                            idle.sr,
                            idle.sc,
                            origin.row_of(i),
                            origin.col_of(i),
                            n,
                        );
                    lemma_flood_complete(idle, now, origin.row_of(i), origin.col_of(i), n);
                }
            }
            assert(now.cells =~= goal.cells);
            origin.lemma_states_keep_wf(now);
        }
        Ok(())
    }
}

} // verus!
