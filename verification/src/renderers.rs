//! The rendering capability the surrounding game loop uses.

use vstd::prelude::*;

use crate::game_state::GameState;

verus! {

/// A renderer of game states.  Implementations live with the surrounding
/// program; the library only states the capability.
pub trait Renderer {
    /// Renders the given state.
    fn render(&self, game_state: &GameState);
}

} // verus!
