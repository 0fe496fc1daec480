//! A chessboard that behaves like a physical board: pieces are picked up and
//! put down by taps, positions are loaded from FEN text, and no chess rules
//! are enforced.

pub mod board;
pub mod chess_app;
pub mod display;
pub mod fen;
pub mod positions;
pub mod text;
