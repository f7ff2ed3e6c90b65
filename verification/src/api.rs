//! The four operations that a host calls: create, render, reveal and mark.

use vstd::prelude::*;
use crate::board::{Board, Minesweeper};
use crate::draw::{draws_of, DrawCommand};
use crate::error::GameError;
use crate::geometry::in_safe_zone;

verus! {

impl Board {
    /// Whether a reveal of `(r, c)` with these draws succeeds: the position
    /// lies inside the grid and, where the board has yet to be generated,
    /// the draws suffice to generate it.
    pub open spec fn can_reveal(self, draws: Seq<usize>, r: int, c: int) -> bool {
        self.in_bounds(r, c) && (self.generated || self.can_generate(draws, r, c))
    }

    /// Whether `after` is this board after a reveal of `(r, c)` with these
    /// draws: the board is generated from the draws first where it has not
    /// been generated yet, and then revealed.
    pub open spec fn reveals(self, after: Board, draws: Seq<usize>, r: int, c: int) -> bool {
        if self.generated {
            after == self.revealed(r, c)
        } else {
            exists|laid: Board| #[trigger]
                self.generates(laid, draws, r, c) && after == laid.revealed(r, c)
        }
    }
}

/// The bomb density of a board made by [`init`], in percent.
pub const DEFAULT_BOMB_PERCENT: usize = 15;

/// Creates the board for a screen of `screen_height` by `screen_width`
/// pixels with square cells of `cell_size` pixels: every cell closed and
/// empty, nothing generated, a density of 15 percent.
///
/// Fails with [`GameError::Configuration`] exactly when the cell size is not
/// positive, the screen holds no cell in one direction, or the machine
/// cannot index the cells.
pub fn init(screen_height: i32, screen_width: i32, cell_size: i32) -> (res: Result<
    Minesweeper,
    GameError,
>)
    ensures
        res is Ok <==> Board::creatable(
            screen_height as int,
            screen_width as int,
            cell_size as int,
            DEFAULT_BOMB_PERCENT as nat,
        ),
        res matches Ok(game) ==> game.wf() && game@ == Board::fresh(
            screen_height as int,
            screen_width as int,
            cell_size as int,
            DEFAULT_BOMB_PERCENT as nat,
        ),
        res matches Err(e) ==> e == GameError::Configuration,
{
    Minesweeper::with_density(screen_height, screen_width, cell_size, DEFAULT_BOMB_PERCENT)
}

/// The commands that draw the board: a dark rectangle over the whole
/// screen, then the cells in row-major order. The board is not changed.
pub fn render(game: &Minesweeper) -> (out: Vec<DrawCommand>)
    requires
        game.wf(),
    ensures
        draws_of(out@) == game@.frame(),
{
    let mut out: Vec<DrawCommand> = Vec::new();
    out.push(
        DrawCommand::FillRect {
            x: 0,
            y: 0,
            w: game.screen_width as i64,
            h: game.screen_height as i64,
            r: 20,
            g: 20,
            b: 20,
            a: 255,
        },
    );
    assert(draws_of(out@) =~= seq![game@.background()]);
    game.render_into(&mut out);
    out
}

/// Reveals the cell at `(row, col)`.
///
/// The first reveal of a board generates it: the mines are placed from the
/// draws as [`Minesweeper::generate_bombs`] says, so that none lies at or
/// next to the revealed cell. Every later reveal leaves the mines where
/// they are and makes no use of the draws. Then the cell is opened and the
/// flood goes on from it as [`Minesweeper::open_cell`] says.
///
/// Fails, and changes nothing, with [`GameError::Index`] where
/// `(row, col)` lies outside the grid, and with
/// [`GameError::GenerationExhausted`] where the board has yet to be
/// generated and the draws name fewer eligible cells than there are mines
/// to place.
pub fn open_cell(game: &mut Minesweeper, row: usize, col: usize, draws: &Vec<usize>) -> (res:
    Result<(), GameError>)
    requires
        old(game).wf(),
    ensures
        final(game).wf(),
        match res {
            Ok(()) => {
                &&& old(game)@.can_reveal(draws@, row as int, col as int)
                &&& old(game)@.reveals(final(game)@, draws@, row as int, col as int)
            },
            Err(e) => {
                &&& !old(game)@.can_reveal(draws@, row as int, col as int)
                &&& final(game)@ == old(game)@
                &&& e == if old(game)@.in_bounds(row as int, col as int) {
                    GameError::GenerationExhausted
                } else {
                    GameError::Index
                }
            },
        },
        res is Ok ==> final(game)@.generated,
        res is Ok ==> final(game)@.bombs().len() == old(game)@.target_bombs(),
        old(game)@.generated ==> final(game)@.generated,
        old(game)@.generated ==> final(game)@.bombs() == old(game)@.bombs(),
        !old(game)@.generated && res is Ok ==> forall|r: int, c: int|
            in_safe_zone(r, c, row as int, col as int) ==> !#[trigger] final(game)@.is_bomb(r, c),
{
    if row >= game.rows || col >= game.cols {
        return Err(GameError::Index);
    }
    if !game.generated {
        match game.generate_bombs(row, col, draws) {
            Err(e) => {
                return Err(e);
            },
            Ok(()) => {},
        }
    }
    let ghost laid = game@;
    let res = game.open_cell(row, col);
    proof {
        laid.lemma_revealed_same_but_states(row as int, col as int);
        laid.lemma_states_keep_wf(game@);
        assert forall|r: int, c: int| #[trigger] game@.is_bomb(r, c) == laid.is_bomb(r, c) by {
            laid.lemma_same_bombs(game@, r, c);
        }
    }
    res
}

/// Marks the closed cell at `(row, col)`, or takes the mark off it again:
/// see [`Minesweeper::mark_cell`].
pub fn mark_cell(game: &mut Minesweeper, row: usize, col: usize) -> (res: Result<(), GameError>)
    requires
        old(game).wf(),
    ensures
        final(game).wf(),
        res is Ok <==> old(game)@.in_bounds(row as int, col as int),
        res is Ok ==> final(game)@ == old(game)@.marked(row as int, col as int),
        res matches Err(e) ==> e == GameError::Index && final(game)@ == old(game)@,
{
    game.mark_cell(row, col)
}

} // verus!
