//! A move: the transition between two game states.

use vstd::prelude::*;

use crate::game_state::current_mark_of;
use crate::game_state::GameState;
use crate::mark::Mark;

verus! {

/// An immutable record of one move: the mark placed, the cell index, and
/// the game states before and after the move.  Both states are
/// self-contained snapshots.
#[derive(Clone, Copy, PartialEq, Eq, Debug)]
pub struct GameMove {
    mark: Mark,
    cell_index: usize,
    before_state: GameState,
    after_state: GameState,
}

impl GameMove {
    /// The mark placed by the move.
    pub closed spec fn spec_mark(&self) -> Mark {
        self.mark
    }

    /// The index of the cell the move marks.
    pub closed spec fn spec_cell_index(&self) -> usize {
        self.cell_index
    }

    /// The state the move starts from.
    pub closed spec fn spec_before_state(&self) -> GameState {
        self.before_state
    }

    /// The state the move produces.
    pub closed spec fn spec_after_state(&self) -> GameState {
        self.after_state
    }

    /// A coherent move: it marks a vacant cell of the before state with
    /// the mark whose turn it is, and the after state is the before state
    /// with exactly that cell filled.
    pub open spec fn wf(&self) -> bool {
        &&& self.spec_cell_index() < 9
        &&& self.spec_before_state().board()[self.spec_cell_index() as int] is None
        &&& self.spec_mark() == current_mark_of(
            self.spec_before_state().board(),
            self.spec_before_state().spec_starting_mark(),
        )
        &&& self.spec_after_state().spec_starting_mark()
            == self.spec_before_state().spec_starting_mark()
        &&& self.spec_after_state().board() == self.spec_before_state().board().update(
            self.spec_cell_index() as int,
            Some(self.spec_mark()),
        )
    }

    /// Creates a move record from its four components.
    pub fn new(
        mark: Mark,
        cell_index: usize,
        before_state: GameState,
        after_state: GameState,
    ) -> (m: GameMove)
        ensures
            m.spec_mark() == mark,
            m.spec_cell_index() == cell_index,
            m.spec_before_state() == before_state,
            m.spec_after_state() == after_state,
    {
        GameMove { mark, cell_index, before_state, after_state }
    }

    /// The mark placed by the move.
    pub fn mark(&self) -> (r: &Mark)
        ensures
            *r == self.spec_mark(),
    {
        &self.mark
    }

    /// The index of the cell the move marks.
    pub fn cell_index(&self) -> (r: usize)
        ensures
            r == self.spec_cell_index(),
    {
        self.cell_index
    }

    /// The state the move starts from.
    pub fn before_state(&self) -> (r: &GameState)
        ensures
            *r == self.spec_before_state(),
    {
        &self.before_state
    }

    /// The state the move produces.
    pub fn after_state(&self) -> (r: &GameState)
        ensures
            *r == self.spec_after_state(),
    {
        &self.after_state
    }
}

} // verus!
