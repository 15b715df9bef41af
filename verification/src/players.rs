//! The player capability: a mark, a way to choose a move, and a shared
//! way to apply the chosen move to a state.

use vstd::prelude::*;

use crate::errors::MoveError;
use crate::game_move::GameMove;
use crate::game_state::current_mark_of;
use crate::game_state::GameState;
use crate::mark::Mark;

verus! {

/// A player of the game.  `make_move` is provided once in terms of the
/// other two methods: it refuses to move out of turn, reports when no
/// move exists, and otherwise returns the state after the chosen move.
pub trait Player {
    /// The mark this player plays.
    spec fn mark_spec(&self) -> Mark;

    /// Returns the mark this player plays.
    fn get_mark(&self) -> (m: Mark)
        ensures
            m == self.mark_spec(),
    ;

    /// Chooses a move for the given state, or nothing when no move can
    /// be made.  Every returned move is coherent and starts from the
    /// given state.
    fn get_move(&self, game_state: &GameState) -> (r: Option<GameMove>)
        ensures
            r matches Some(mv) ==> mv.wf() && mv.spec_before_state() == *game_state,
    ;

    /// Applies this player's chosen move to the state: fails when it is
    /// not this player's turn or when no move exists, and otherwise
    /// returns the state after a coherent move from the given state.
    fn make_move(&self, game_state: &GameState) -> (r: Result<GameState, MoveError>)
        ensures
            (self.mark_spec() != current_mark_of(
                game_state.board(),
                game_state.spec_starting_mark(),
            )) <==> r == Err::<GameState, MoveError>(MoveError::NotYourTurn(self.mark_spec())),
            r matches Ok(s) ==> exists|mv: GameMove|
                mv.wf() && mv.spec_before_state() == *game_state && (#[trigger] mv.spec_after_state())
                    == s,
            r matches Err(e) ==> e == MoveError::NotYourTurn(self.mark_spec()) || e
                == MoveError::NoPossibleMoves,
    {
        if self.get_mark() != game_state.current_mark() {
            return Err(MoveError::NotYourTurn(self.get_mark()));
        }
        if let Some(next_move) = self.get_move(game_state) {
            let after = *next_move.after_state();
            proof {
                assert(next_move.wf() && next_move.spec_before_state() == *game_state
                    && next_move.spec_after_state() == after);
            }
            return Ok(after);
        }
        Err(MoveError::NoPossibleMoves)
    }
}

} // verus!
