//! Pieces: an immutable identity (type and color) plus a "has moved" flag.

use vstd::prelude::*;
use crate::color::Color;

verus! {

/// The six kinds of chess piece.
#[derive(Clone, Copy, Debug, PartialEq, Eq, Hash, Structural)]
pub enum PieceType {
    King,
    Queen,
    Rook,
    Bishop,
    Knight,
    Pawn,
}

/// One piece. `has_moved` starts `false` and is set permanently by any move
/// of the piece; only undoing the piece's first move clears it again.
#[derive(Clone, Copy, Debug, PartialEq, Eq, Structural)]
pub struct Piece {
    pub color: Color,
    pub has_moved: bool,
    pub piece_type: PieceType,
}

impl Piece {
    /// A fresh, unmoved piece.
    pub fn new(piece_type: PieceType, color: Color) -> (r: Self)
        ensures
            r == (Piece { color, has_moved: false, piece_type }),
    {
        Piece { color, piece_type, has_moved: false }
    }

    /// The piece's color.
    pub fn color(&self) -> (r: Color)
        ensures
            r == self.color,
    {
        self.color
    }

    /// The letter this piece is drawn with.
    pub fn draw(&self) -> (r: char)
        ensures
            r == self.spec_draw(),
    {
        match self.piece_type {
            PieceType::Pawn => 'P',
            PieceType::Knight => 'N',
            PieceType::Queen => 'Q',
            PieceType::King => 'K',
            PieceType::Bishop => 'B',
            PieceType::Rook => 'R',
        }
    }

    /// The letter this piece is drawn with.
    pub open spec fn spec_draw(&self) -> char {
        match self.piece_type {
            PieceType::Pawn => 'P',
            PieceType::Knight => 'N',
            PieceType::Queen => 'Q',
            PieceType::King => 'K',
            PieceType::Bishop => 'B',
            PieceType::Rook => 'R',
        }
    }

    /// Record that the piece has moved.
    pub fn mark_moved(&mut self)
        ensures
            *final(self) == (Piece { has_moved: true, ..*old(self) }),
    {
        self.has_moved = true;
    }

    /// Clear the moved flag (used when a piece's first move is undone).
    pub fn unmark_moved(&mut self)
        ensures
            *final(self) == (Piece { has_moved: false, ..*old(self) }),
    {
        self.has_moved = false;
    }

    /// Whether the piece has ever moved.
    pub fn has_moved(&self) -> (r: bool)
        ensures
            r == self.has_moved,
    {
        self.has_moved
    }

    /// The piece's type.
    pub fn piece_type(&self) -> (r: PieceType)
        ensures
            r == self.piece_type,
    {
        self.piece_type
    }
}

} // verus!
