//! A verified tic-tac-toe engine: the board, the game state machine and a
//! computer opponent with three strengths.

pub mod board;
pub mod engine;
pub mod game;
pub mod theme;
