//! One board cell: a fixed checkerboard color and an optional occupant.

use vstd::prelude::*;
use crate::color::Color;
use crate::piece::Piece;

verus! {

/// One square of the board. `color` is the square's own checkerboard color,
/// fixed for the life of the board; `piece` is its occupant, if any.
#[derive(Clone, Copy, Debug, PartialEq, Eq, Structural)]
pub struct Space {
    pub color: Color,
    pub piece: Option<Piece>,
}

impl Space {
    /// A square of the given color holding the given occupant.
    pub fn new(color: Color, piece: Option<Piece>) -> (r: Self)
        ensures
            r == (Space { color, piece }),
    {
        Space { color, piece }
    }

    /// The letter the square is drawn with: its occupant's letter, or a blank.
    pub fn draw(&self) -> (r: char)
        ensures
            r == self.spec_draw(),
    {
        if let Some(p) = &self.piece {
            p.draw()
        } else {
            ' '
        }
    }

    /// The letter the square is drawn with.
    pub open spec fn spec_draw(&self) -> char {
        if let Some(p) = self.piece {
            p.spec_draw()
        } else {
            ' '
        }
    }

    /// The occupant, if any.
    pub fn piece(&self) -> (r: &Option<Piece>)
        ensures
            r == self.piece,
    {
        &self.piece
    }

    /// The occupant's color, if the square is occupied.
    pub fn piece_color(&self) -> (r: Option<Color>)
        ensures
            r == match self.piece {
                Some(p) => Some(p.color),
                None => None::<Color>,
            },
    {
        match &self.piece {
            Some(p) => Some(p.color),
            None => None,
        }
    }

    /// The square's own checkerboard color.
    pub fn color(&self) -> (r: Color)
        ensures
            r == self.color,
    {
        self.color
    }

    /// Take the occupant out of the square, leaving it empty.
    pub fn remove_piece(&mut self) -> (r: Option<Piece>)
        ensures
            r == old(self).piece,
            *final(self) == (Space { piece: None, ..*old(self) }),
    {
        self.piece.take()
    }

    /// Replace the occupant.
    pub fn set_piece(&mut self, piece: Option<Piece>)
        ensures
            *final(self) == (Space { piece, ..*old(self) }),
    {
        self.piece = piece;
    }
}

} // verus!
