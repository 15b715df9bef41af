//! Pure checks of the board invariants, run once whenever a game state is
//! constructed.

use vstd::prelude::*;

use crate::errors::ValidationError;
use crate::game_state::starting_mark_consistent;
use crate::game_state::marks_balanced;
use crate::game_state::winner_claim_consistent;
use crate::game_state::GameState;
use crate::grid::cross_count_of;
use crate::grid::naught_count_of;
use crate::grid::Grid;
use crate::mark::Mark;

verus! {

/// Checks all board invariants of an already-constructed game state.
/// Every state that can be constructed passes, so this always succeeds.
pub fn validate_game_state(game_state: &GameState) -> (r: Result<(), ValidationError>)
    ensures
        r == Ok::<(), ValidationError>(()),
{
    proof {
        use_type_invariant(game_state);
    }
    if let Err(e) = validate_number_of_marks(game_state.grid()) {
        return Err(e);
    }
    if let Err(e) = validate_starting_mark(game_state.grid(), game_state.starting_mark()) {
        return Err(e);
    }
    if let Err(e) = validate_winner(
        game_state.grid(),
        game_state.starting_mark(),
        game_state.winner_mark(),
    ) {
        return Err(e);
    }
    Ok(())
}

/// Checks that the cross count and the naught count differ by at most
/// one; reports both counts otherwise.
pub fn validate_number_of_marks(grid: &Grid) -> (r: Result<(), ValidationError>)
    ensures
        marks_balanced(grid@) ==> r == Ok::<(), ValidationError>(()),
        !marks_balanced(grid@) ==> r == Err::<(), ValidationError>(
            ValidationError::WrongNumberOfNaughtsAndCrosses(
                cross_count_of(grid@) as usize,
                naught_count_of(grid@) as usize,
            ),
        ),
{
    let cross_count = grid.cross_count();
    let naught_count = grid.naught_count();
    let diff = if cross_count >= naught_count {
        cross_count - naught_count
    } else {
        naught_count - cross_count
    };
    if diff > 1 {
        return Err(ValidationError::WrongNumberOfNaughtsAndCrosses(cross_count, naught_count));
    }
    Ok(())
}

/// Checks that the starting mark is consistent with the counts: whichever
/// mark occurs more often must be the one that moved first.
pub fn validate_starting_mark(grid: &Grid, starting_mark: &Mark) -> (r: Result<
    (),
    ValidationError,
>)
    ensures
        starting_mark_consistent(grid@, *starting_mark) ==> r == Ok::<(), ValidationError>(()),
        !starting_mark_consistent(grid@, *starting_mark) ==> r == Err::<(), ValidationError>(
            ValidationError::WrongStartingMark(*starting_mark),
        ),
{
    let cross_count = grid.cross_count();
    let naught_count = grid.naught_count();
    if (cross_count > naught_count && *starting_mark == Mark::Naught) || (cross_count < naught_count
        && *starting_mark == Mark::Cross) {
        return Err(ValidationError::WrongStartingMark(*starting_mark));
    }
    Ok(())
}

/// Checks that a claimed winner is consistent with the counts: a winner
/// that also started must hold one mark more than the loser, any other
/// winner exactly as many.
pub fn validate_winner(grid: &Grid, starting_mark: &Mark, winner: Option<Mark>) -> (r: Result<
    (),
    ValidationError,
>)
    ensures
        (winner matches Some(w) ==> winner_claim_consistent(grid@, *starting_mark, w)) ==> r
            == Ok::<(), ValidationError>(()),
        winner matches Some(w) ==> (!winner_claim_consistent(grid@, *starting_mark, w) ==> r
            == Err::<(), ValidationError>(ValidationError::WrongWinnerMark(w))),
{
    if let Some(winner_mark) = winner {
        if winner_mark == Mark::Cross {
            if *starting_mark == Mark::Cross {
                if grid.cross_count() <= grid.naught_count() {
                    return Err(ValidationError::WrongWinnerMark(winner_mark));
                }
            } else if grid.cross_count() != grid.naught_count() {
                return Err(ValidationError::WrongWinnerMark(winner_mark));
            }
        } else {
            if *starting_mark == Mark::Naught {
                if grid.naught_count() <= grid.cross_count() {
                    return Err(ValidationError::WrongWinnerMark(winner_mark));
                }
            } else if grid.naught_count() != grid.cross_count() {
                return Err(ValidationError::WrongWinnerMark(winner_mark));
            }
        }
    }
    Ok(())
}

} // verus!
