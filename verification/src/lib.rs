//! A verified tic-tac-toe engine.
//!
//! The library models the 3x3 board, validated game states, move
//! application, and an optimal computer player based on minimax search
//! with alpha-beta pruning.  Every game state that can be obtained through
//! the public constructors satisfies the board invariants; the search
//! functions are proved to return the exact game-theoretic value of the
//! position.

pub mod cell;
pub mod errors;
pub mod game_move;
pub mod game_state;
pub mod grid;
pub mod mark;
pub mod minimax;
pub mod players;
pub mod random;
pub mod renderers;
pub mod validators;

pub use cell::Cell;
pub use errors::Error;
pub use errors::MoveError;
pub use errors::ValidationError;
pub use game_move::GameMove;
pub use game_state::GameState;
pub use grid::Grid;
pub use mark::Mark;
pub use minimax::MinimaxPlayer;
pub use players::Player;
pub use random::DumbPlayer;
pub use renderers::Renderer;
