//! A verified core of a two-player chess engine: legal-move generation,
//! rule-enforcing board state with make/unmake, check and checkmate
//! detection, FEN decoding, and a bounded-depth alpha-beta search.

pub mod ai;
pub mod board;
pub mod cli;
pub mod coordinates;
pub mod fen;
pub mod grid;
pub mod laws;
pub mod moves;
pub mod parsing;
pub mod piece;
pub mod rules;

pub use coordinates::ColumnIndex;
pub use coordinates::Coordinate;
pub use coordinates::Move;
pub use coordinates::RowIndex;
