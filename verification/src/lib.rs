//! A chess rules engine: an 8x8 board of pieces, move validation and
//! application for every piece type (including en passant, castling and
//! promotion), check and checkmate detection, capture tallies, and exact
//! move reversal.
//!
//! The board and every rule are specified against a mathematical model of
//! the game state ([`rules::BoardView`]) and verified: `move_piece` either
//! commits exactly the state change its specification describes and returns
//! `true`, or leaves the board untouched and returns `false`; and undoing a
//! committed move provably restores the previous state bit for bit.

pub mod color;
pub mod piece;
pub mod space;
pub mod move_record;
pub mod tally;
pub mod rules;
pub mod board;
pub mod laws;
pub mod netplay;
