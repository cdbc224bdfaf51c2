//! A two-player game of noughts and crosses on a 3×3 grid, in which whose
//! turn it is travels in the type of the game state.

pub mod board;
pub mod game;
