//! What holds of every board, stated over the model and proved.

use vstd::prelude::*;
use crate::board::Board;
use crate::cell::{CellState, CellType};
use crate::geometry::in_safe_zone;
use crate::mark::toggled;

verus! {

/// On a generated board every cell's count is the number of mines among its
/// up to eight neighbours; a cell on an edge or in a corner has fewer
/// neighbours.
pub proof fn law_counts_are_exact(board: Board, r: int, c: int)
    requires
        board.wf(),
        board.generated,
        board.in_bounds(r, c),
    ensures
        board.at(r, c).bomb_neighbours == board.bomb_neighbour_count(r, c),
        0 <= board.bomb_neighbour_count(r, c) <= 8,
{
    board.lemma_index(r, c);
    assert(board.cells[board.index_of(r, c)].bomb_neighbours == board.bomb_neighbour_count(
        board.row_of(board.index_of(r, c)),
        board.col_of(board.index_of(r, c)),
    ));
}

/// A generated board holds exactly the bomb density applied to the number of
/// cells, rounded down, in mines.
pub proof fn law_bomb_total(board: Board)
    requires
        board.wf(),
        board.generated,
    ensures
        board.bombs().len() == (board.rows * board.cols * board.bomb_percent) / 100,
{
}

/// A board that has not been generated holds no mine.
pub proof fn law_no_mines_before_generation(board: Board)
    requires
        board.wf(),
        !board.generated,
    ensures
        board.bombs() == Set::<int>::empty(),
{
    assert forall|i: int| !board.bombs().contains(i) by {
        if 0 <= i < board.cells.len() {
            assert(board.cells[i].cell_type == CellType::Empty);
        }
    }
    assert(board.bombs() =~= Set::<int>::empty());
}

/// The mines that generation places are determined by the draws: whatever
/// part of the draws names one eligible cell for every mine names the same
/// cells, so generation from the same draws gives the same board.
pub proof fn law_generation_is_determined(
    board: Board,
    draws: Seq<usize>,
    cr: int,
    cc: int,
    first: Board,
    second: Board,
)
    requires
        board.generates(first, draws, cr, cc),
        board.generates(second, draws, cr, cc),
    ensures
        first == second,
{
    let k1 = choose|k: int|
        0 <= k <= draws.len() && first.bombs() == #[trigger] board.eligible_draws(
            draws.take(k),
            cr,
            cc,
        ) && first.bombs().len() == board.target_bombs();
    let k2 = choose|k: int|
        0 <= k <= draws.len() && second.bombs() == #[trigger] board.eligible_draws(
            draws.take(k),
            cr,
            cc,
        ) && second.bombs().len() == board.target_bombs();
    board.lemma_eligible_draws_grow(draws, k1, cr, cc);
    board.lemma_eligible_draws_grow(draws, k2, cr, cc);
    if k1 <= k2 {
        assert(draws.take(k2).take(k1) =~= draws.take(k1));
        board.lemma_eligible_draws_grow(draws.take(k2), k1, cr, cc);
        vstd::set_lib::lemma_subset_equality(first.bombs(), second.bombs());
    } else {
        assert(draws.take(k1).take(k2) =~= draws.take(k2));
        board.lemma_eligible_draws_grow(draws.take(k1), k2, cr, cc);
        vstd::set_lib::lemma_subset_equality(second.bombs(), first.bombs());
    }
}

/// A reveal is determined by the board, the position and the draws.
pub proof fn law_reveal_is_determined(
    board: Board,
    draws: Seq<usize>,
    r: int,
    c: int,
    first: Board,
    second: Board,
)
    requires
        board.reveals(first, draws, r, c),
        board.reveals(second, draws, r, c),
    ensures
        first == second,
{
    if !board.generated {
        let laid1 = choose|laid: Board| #[trigger]
            board.generates(laid, draws, r, c) && first == laid.revealed(r, c);
        let laid2 = choose|laid: Board| #[trigger]
            board.generates(laid, draws, r, c) && second == laid.revealed(r, c);
        law_generation_is_determined(board, draws, r, c, laid1, laid2);
    }
}

/// A reveal leaves the board generated: the first reveal generates it, and
/// every later reveal finds the mines where they are and leaves them there.
pub proof fn law_reveal_generates_once(
    board: Board,
    after: Board,
    draws: Seq<usize>,
    r: int,
    c: int,
)
    requires
        board.wf(),
        board.reveals(after, draws, r, c),
    ensures
        after.generated,
        after.wf(),
        board.generated ==> after.bombs() == board.bombs(),
{
    if board.generated {
        board.lemma_revealed_same_but_states(r, c);
        board.lemma_states_keep_wf(after);
    } else {
        let laid = choose|laid: Board| #[trigger]
            board.generates(laid, draws, r, c) && after == laid.revealed(r, c);
        law_generation_is_valid(board, laid, draws, r, c);
        laid.lemma_revealed_same_but_states(r, c);
        laid.lemma_states_keep_wf(after);
    }
}

/// Generation gives a valid board: it holds exactly the bomb density
/// applied to the number of cells, rounded down, in mines, and every cell's
/// count is the number of mines among its neighbours. The states of the
/// cells are as they were.
pub proof fn law_generation_is_valid(
    board: Board,
    after: Board,
    draws: Seq<usize>,
    cr: int,
    cc: int,
)
    requires
        board.shaped(),
        board.generates(after, draws, cr, cc),
    ensures
        after.wf(),
        after.generated,
        after.bombs().len() == (board.rows * board.cols * board.bomb_percent) / 100,
        after.counts_exact(),
        forall|i: int|
            0 <= i < board.cells.len() ==> (#[trigger] after.cells[i]).state
                == board.cells[i].state,
{
    board.lemma_places_eligible(after.bombs(), draws, cr, cc);
    board.lemma_mined(after.bombs());
}

/// Generation puts no mine at or next to the cell that is revealed first,
/// whatever the draws are.
pub proof fn law_first_reveal_is_safe(
    board: Board,
    after: Board,
    draws: Seq<usize>,
    cr: int,
    cc: int,
    r: int,
    c: int,
)
    requires
        board.shaped(),
        board.generates(after, draws, cr, cc),
        in_safe_zone(r, c, cr, cc),
    ensures
        !after.is_bomb(r, c),
{
    board.lemma_places_eligible(after.bombs(), draws, cr, cc);
    if after.is_bomb(r, c) {
        after.lemma_index(r, c);
        assert(after.bombs().contains(after.index_of(r, c)));
    }
}

/// A reveal and a mark leave the mines where they are, the counts as they
/// are, and a generated board generated.
pub proof fn law_mines_stay(board: Board, r: int, c: int)
    requires
        board.wf(),
        board.in_bounds(r, c),
    ensures
        board.revealed(r, c).generated == board.generated,
        board.revealed(r, c).bombs() == board.bombs(),
        board.revealed(r, c).wf(),
        board.marked(r, c).generated == board.generated,
        board.marked(r, c).bombs() == board.bombs(),
        board.marked(r, c).wf(),
{
    board.lemma_index(r, c);
    board.lemma_states_keep_wf(board.revealed(r, c));
    board.lemma_states_keep_wf(board.marked(r, c));
}

/// Whatever a reveal gets to, other than the revealed cell itself, is a cell
/// that holds no mine and was not open.
pub proof fn law_reached_is_openable(board: Board, sr: int, sc: int, r: int, c: int, n: nat)
    requires
        board.reached_within(sr, sc, r, c, n),
    ensures
        (r == sr && c == sc) || board.openable(r, c),
    decreases n,
{
    if n > 0 && board.reached_within(sr, sc, r, c, (n - 1) as nat) {
        law_reached_is_openable(board, sr, sc, r, c, (n - 1) as nat);
    }
}

/// A reveal opens no mine but the revealed cell itself: every other cell
/// that holds a mine is after the reveal as it was before.
pub proof fn law_flood_spares_mines(board: Board, sr: int, sc: int, i: int)
    requires
        board.shaped(),
        0 <= i < board.cells.len(),
        board.cells[i].cell_type == CellType::Bomb,
        !(board.row_of(i) == sr && board.col_of(i) == sc),
    ensures
        board.revealed(sr, sc).cells[i] == board.cells[i],
{
    let r = board.row_of(i);
    let c = board.col_of(i);
    board.lemma_position(i);
    if board.reached(sr, sc, r, c) {
        let n = choose|n: nat| board.reached_within(sr, sc, r, c, n);
        law_reached_is_openable(board, sr, sc, r, c, n);
    }
}

/// A reveal opens the revealed cell, whatever it holds and whether or not
/// it is marked.
pub proof fn law_revealed_cell_is_open(board: Board, sr: int, sc: int)
    requires
        board.shaped(),
        board.in_bounds(sr, sc),
    ensures
        board.revealed(sr, sc).is_open(sr, sc),
{
    board.lemma_index(sr, sc);
    assert(board.reached_within(sr, sc, sr, sc, 0));
}

/// A cell that is open stays open: neither a reveal nor a mark nor
/// generation closes it.
pub proof fn law_open_is_terminal(board: Board, bombs: Set<int>, r: int, c: int, i: int)
    requires
        board.shaped(),
        board.in_bounds(r, c),
        0 <= i < board.cells.len(),
        board.cells[i].state == CellState::Open,
    ensures
        board.revealed(r, c).cells[i].state == CellState::Open,
        board.marked(r, c).cells[i].state == CellState::Open,
        board.mined(bombs).cells[i].state == CellState::Open,
{
    board.lemma_index(r, c);
}

/// Marking is a toggle: a mark followed by a mark of the same cell gives the
/// board back, so a closed cell is closed again.
pub proof fn law_mark_twice(board: Board, r: int, c: int)
    requires
        board.shaped(),
        board.in_bounds(r, c),
    ensures
        board.marked(r, c).marked(r, c) == board,
        board.at(r, c).state == CellState::Close ==> board.marked(r, c).at(r, c).state
            == CellState::Marked,
{
    board.lemma_index(r, c);
    let once = board.marked(r, c);
    let twice = once.marked(r, c);
    assert(toggled(toggled(board.at(r, c).state)) == board.at(r, c).state);
    assert(twice.cells =~= board.cells);
}

/// Marking an open cell changes nothing, however often it is done.
pub proof fn law_mark_open_is_noop(board: Board, r: int, c: int)
    requires
        board.shaped(),
        board.in_bounds(r, c),
        board.at(r, c).state == CellState::Open,
    ensures
        board.marked(r, c) == board,
{
    board.lemma_index(r, c);
    assert(board.marked(r, c).cells =~= board.cells);
}

/// Marking changes neither the type nor the count of any cell, and the
/// state of no cell but the marked one.
pub proof fn law_mark_touches_one_state(board: Board, r: int, c: int, i: int)
    requires
        board.shaped(),
        board.in_bounds(r, c),
        0 <= i < board.cells.len(),
    ensures
        board.marked(r, c).cells[i].cell_type == board.cells[i].cell_type,
        board.marked(r, c).cells[i].bomb_neighbours == board.cells[i].bomb_neighbours,
        i != board.index_of(r, c) ==> board.marked(r, c).cells[i] == board.cells[i],
{
    board.lemma_index(r, c);
}

} // verus!
