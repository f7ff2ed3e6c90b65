//! The ways an operation on the board can be refused.

use vstd::prelude::*;

verus! {

/// Why an operation was refused. A refused operation leaves the board as it
/// was.
#[derive(Clone, Copy, Debug, PartialEq, Eq, Structural)]
pub enum GameError {
    /// The creation parameters describe no usable board.
    Configuration,
    /// A row or column lies outside the grid.
    Index,
    /// The random draws ran out before every mine was placed.
    GenerationExhausted,
}

} // verus!
