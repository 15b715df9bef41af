//! Error types of the game logic.

use vstd::prelude::*;

use crate::mark::Mark;

verus! {

/// Errors raised while applying a move.
#[derive(Clone, Copy, PartialEq, Eq, Debug)]
pub enum MoveError {
    /// The current position admits no move at all.
    NoPossibleMoves,
    /// The player holding this mark tried to move out of turn.
    NotYourTurn(Mark),
    /// The cell at this index already holds a mark.
    CellAlreadyMarked(usize),
}

/// Errors raised while validating a candidate game state.  A state that
/// fails validation is never constructed.
#[derive(Clone, Copy, PartialEq, Eq, Debug)]
pub enum ValidationError {
    /// The cross count and the naught count differ by more than one; the
    /// payload carries the two counts.
    WrongNumberOfNaughtsAndCrosses(usize, usize),
    /// This starting mark is inconsistent with the mark counts.
    WrongStartingMark(Mark),
    /// This winner is inconsistent with the mark counts.
    WrongWinnerMark(Mark),
}

/// The union of the errors the game logic can report.
#[derive(Clone, PartialEq, Eq, Debug)]
pub enum Error {
    /// A configuration of the surrounding game could not be accepted.
    ConfigError(String),
    /// A move could not be applied.
    MoveError(MoveError),
    /// A candidate game state failed validation.
    ValidationError(ValidationError),
}

} // verus!
