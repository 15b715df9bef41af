//! A baseline player that simply takes the first legal move.

use vstd::prelude::*;

use crate::game_move::GameMove;
use crate::game_state::GameState;
use crate::mark::Mark;
use crate::players::Player;

verus! {

/// A player that always plays the legal move with the lowest cell index.
pub struct DumbPlayer {
    mark: Mark,
}

impl DumbPlayer {
    /// Creates a player for the given mark.
    pub fn new(mark: Mark) -> (p: Self)
        ensures
            p.mark_spec() == mark,
    {
        DumbPlayer { mark }
    }
}

impl Player for DumbPlayer {
    closed spec fn mark_spec(&self) -> Mark {
        self.mark
    }

    fn get_mark(&self) -> (m: Mark) {
        self.mark
    }

    fn get_move(&self, game_state: &GameState) -> (r: Option<GameMove>)
        ensures
            (r is None) == crate::game_state::game_over_of(game_state.board()),
            r matches Some(mv) ==> forall|j: int|
                0 <= j < mv.spec_cell_index() ==> game_state.board()[j] is Some,
    {
        let moves = game_state.possible_moves();
        if moves.is_empty() {
            return None;
        }
        let chosen = moves[0];
        proof {
            let ghost ms = moves@;
            assert(ms[0].wf());
            assert forall|j: int| 0 <= j < chosen.spec_cell_index() implies game_state.board()[j]
                is Some by {
                if game_state.board()[j] is None {
                    let k0 = choose|k0: int|
                        0 <= k0 < ms.len() && (#[trigger] ms[k0]).spec_cell_index() == j;
                    if k0 > 0 {
                        assert(ms[0].spec_cell_index() < ms[k0].spec_cell_index());
                    }
                    assert(false);
                }
            }
        }
        Some(chosen)
    }
}

} // verus!
