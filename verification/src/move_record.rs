//! The log entry for one applied move, kept so the move can be reversed.

use vstd::prelude::*;
use crate::piece::{Piece, PieceType};

verus! {

/// One committed move. Created when a move is applied and consumed, strictly
/// last-in first-out, by `Board::undo_last_move`. A captured piece is owned
/// by the record until the move is undone. `en_passant` marks a capture
/// whose victim stood beside the moving pawn, on the origin rank, rather
/// than on the destination square; undo restores the victim there.
#[derive(Clone, Copy, Debug, PartialEq, Eq, Structural)]
pub struct MoveRecord {
    pub origin_x: u8,
    pub origin_y: u8,
    pub dest_x: u8,
    pub dest_y: u8,
    pub capture: Option<Piece>,
    pub piece_type: PieceType,
    pub first_move: bool,
    pub en_passant: bool,
}

impl MoveRecord {
    /// A record of an ordinary move from `(x1, y1)` to `(x2, y2)`.
    /// `first_move` is true when this was the piece's first move ever.
    pub fn new(
        x1: u8,
        y1: u8,
        x2: u8,
        y2: u8,
        capture: Option<Piece>,
        piece_type: PieceType,
        first_move: bool,
    ) -> (r: Self)
        ensures
            r == (MoveRecord {
                origin_x: x1,
                origin_y: y1,
                dest_x: x2,
                dest_y: y2,
                capture,
                piece_type,
                first_move,
                en_passant: false,
            }),
    {
        MoveRecord {
            origin_x: x1,
            origin_y: y1,
            dest_x: x2,
            dest_y: y2,
            capture,
            piece_type,
            first_move,
            en_passant: false,
        }
    }

    /// A record of an en passant capture from `(x1, y1)` to `(x2, y2)`;
    /// the captured pawn stood at `(x2, y1)`.
    pub fn new_en_passant(
        x1: u8,
        y1: u8,
        x2: u8,
        y2: u8,
        capture: Option<Piece>,
        piece_type: PieceType,
        first_move: bool,
    ) -> (r: Self)
        ensures
            r == (MoveRecord {
                origin_x: x1,
                origin_y: y1,
                dest_x: x2,
                dest_y: y2,
                capture,
                piece_type,
                first_move,
                en_passant: true,
            }),
    {
        MoveRecord {
            origin_x: x1,
            origin_y: y1,
            dest_x: x2,
            dest_y: y2,
            capture,
            piece_type,
            first_move,
            en_passant: true,
        }
    }

    /// The square the piece moved from.
    pub fn origin(&self) -> (r: (u8, u8))
        ensures
            r == (self.origin_x, self.origin_y),
    {
        (self.origin_x, self.origin_y)
    }

    /// The square the piece moved to.
    pub fn dest(&self) -> (r: (u8, u8))
        ensures
            r == (self.dest_x, self.dest_y),
    {
        (self.dest_x, self.dest_y)
    }

    /// Whether the move captured a piece (that has not been reclaimed yet).
    pub fn is_capture(&self) -> (r: bool)
        ensures
            r == (self.capture is Some),
    {
        self.capture.is_some()
    }

    /// Reclaim the captured piece, leaving the record without one.
    pub fn take_captured_piece(&mut self) -> (r: Option<Piece>)
        ensures
            r == old(self).capture,
            *final(self) == (MoveRecord { capture: None, ..*old(self) }),
    {
        self.capture.take()
    }

    /// The type of the piece that moved.
    pub fn piece_type(&self) -> (r: PieceType)
        ensures
            r == self.piece_type,
    {
        self.piece_type
    }

    /// Whether this was the piece's first move.
    pub fn first_move(&self) -> (r: bool)
        ensures
            r == self.first_move,
    {
        self.first_move
    }
}

} // verus!
