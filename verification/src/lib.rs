//! Rules engine and artificial opponent for the game of Othello.
//!
//! The rules are stated once, over a mathematical model of the board, in
//! [`rules`]; what the two search strategies compute is stated in
//! [`search`]. The executable types refer to these in their contracts:
//!
//! - [`Board`] holds a position and makes moves on it,
//! - [`GameStatus`] counts the pieces and tells who can move,
//! - [`Game`] is the turn-taking state machine,
//! - [`Evaluator`] scores a position,
//! - [`Minimax`] and [`AlphaBeta`] look for the best move.
//!
//! [`dialogue`] and [`session`] hold what a front end needs to talk to a
//! human player and to let the artificial opponent take its turn.

pub mod ascii_board;
pub mod board;
pub mod dialogue;
pub mod error;
pub mod evaluator;
pub mod game;
pub mod game_status;
pub mod navigator;
pub mod player;
pub mod rules;
pub mod search;
pub mod session;
pub mod text;
pub mod virtual_player;

pub use crate::ascii_board::board_to_ascii;
pub use crate::board::{Board, BoardIterator};
pub use crate::dialogue::{
    Choice, parse_choice, parse_response, readable_coordinates, status_report, trim_newline,
};
pub use crate::error::{BoardError, GameError};
pub use crate::evaluator::Evaluator;
pub use crate::game::Game;
pub use crate::game_status::GameStatus;
pub use crate::navigator::{CellsNavigator, GridIterator};
pub use crate::player::Player;
pub use crate::session::{ComputerPlayError, computer_play};
pub use crate::virtual_player::{AlphaBeta, Minimax, VirtualPlayer};
