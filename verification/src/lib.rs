//! A two-player Tic-Tac-Toe game core: board state, turn alternation,
//! cell capture and win detection for any fixed square board size.
//!
//! The game state lives in [`game`]; [`game_controller`] offers the
//! read-only rendering helpers that a front end draws the board from.

pub mod game;
pub mod game_controller;
