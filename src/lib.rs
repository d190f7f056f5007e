//! Rules engine for a chessboard: who stands where, which shapes of move
//! each piece may make, and how clicks select and relocate pieces.

pub mod piece;
pub mod square;
pub mod legality;
pub mod board;
pub mod controller;
pub mod setup;
pub mod render;
