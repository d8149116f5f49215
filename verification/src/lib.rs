//! A verified tic-tac-toe game: the board, whose turn it is, and who has won.
//!
//! [`Game`] is the state machine: `place_mark`, `current_status` and `reset`.
//! Its contracts are stated over [`GameState`], the mathematical state, and
//! `history` proves what holds of every state that play can reach.

pub mod cell;
pub mod game;
pub mod history;
pub mod lines;
pub mod status;
pub mod winner;

pub use cell::{Cell, Player};
pub use game::{Game, GameState, MoveError};
pub use lines::cell_index;
pub use status::{board_status, Status};
pub use winner::get_winner;
