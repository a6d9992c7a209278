//! Running counts of captured pieces, per piece type.

use vstd::prelude::*;
use crate::piece::PieceType;

verus! {

/// A tally of captured pieces by type, for one capturing side. A type is
/// considered present in the tally exactly when its count is positive;
/// undoing the last capture of a type removes its entry.
#[derive(Clone, Copy, Debug, PartialEq, Eq, Structural)]
pub struct CaptureTally {
    pub kings: u8,
    pub queens: u8,
    pub rooks: u8,
    pub bishops: u8,
    pub knights: u8,
    pub pawns: u8,
}

impl CaptureTally {
    /// The tally with no entries.
    pub open spec fn empty() -> CaptureTally {
        CaptureTally { kings: 0, queens: 0, rooks: 0, bishops: 0, knights: 0, pawns: 0 }
    }

    /// The count recorded for a piece type (zero when absent).
    pub open spec fn spec_count(self, t: PieceType) -> u8 {
        match t {
            PieceType::King => self.kings,
            PieceType::Queen => self.queens,
            PieceType::Rook => self.rooks,
            PieceType::Bishop => self.bishops,
            PieceType::Knight => self.knights,
            PieceType::Pawn => self.pawns,
        }
    }

    /// The tally with one more piece of the given type.
    pub open spec fn spec_inc(self, t: PieceType) -> CaptureTally {
        match t {
            PieceType::King => CaptureTally { kings: (self.kings + 1) as u8, ..self },
            PieceType::Queen => CaptureTally { queens: (self.queens + 1) as u8, ..self },
            PieceType::Rook => CaptureTally { rooks: (self.rooks + 1) as u8, ..self },
            PieceType::Bishop => CaptureTally { bishops: (self.bishops + 1) as u8, ..self },
            PieceType::Knight => CaptureTally { knights: (self.knights + 1) as u8, ..self },
            PieceType::Pawn => CaptureTally { pawns: (self.pawns + 1) as u8, ..self },
        }
    }

    /// The tally with one less piece of the given type.
    pub open spec fn spec_dec(self, t: PieceType) -> CaptureTally {
        match t {
            PieceType::King => CaptureTally { kings: (self.kings - 1) as u8, ..self },
            PieceType::Queen => CaptureTally { queens: (self.queens - 1) as u8, ..self },
            PieceType::Rook => CaptureTally { rooks: (self.rooks - 1) as u8, ..self },
            PieceType::Bishop => CaptureTally { bishops: (self.bishops - 1) as u8, ..self },
            PieceType::Knight => CaptureTally { knights: (self.knights - 1) as u8, ..self },
            PieceType::Pawn => CaptureTally { pawns: (self.pawns - 1) as u8, ..self },
        }
    }

    /// The tally with no entries.
    pub fn new() -> (r: Self)
        ensures
            r == CaptureTally::empty(),
    {
        CaptureTally { kings: 0, queens: 0, rooks: 0, bishops: 0, knights: 0, pawns: 0 }
    }

    /// The count recorded for a piece type (zero when absent).
    pub fn count(&self, t: PieceType) -> (r: u8)
        ensures
            r == self.spec_count(t),
    {
        match t {
            PieceType::King => self.kings,
            PieceType::Queen => self.queens,
            PieceType::Rook => self.rooks,
            PieceType::Bishop => self.bishops,
            PieceType::Knight => self.knights,
            PieceType::Pawn => self.pawns,
        }
    }

    /// The entry for a piece type: its count when positive, absent otherwise.
    pub fn get(&self, t: PieceType) -> (r: Option<u8>)
        ensures
            r == if self.spec_count(t) > 0 {
                Some(self.spec_count(t))
            } else {
                None::<u8>
            },
    {
        let c = self.count(t);
        if c > 0 {
            Some(c)
        } else {
            None
        }
    }

    /// Whether the tally has an entry for the piece type.
    pub fn contains_key(&self, t: PieceType) -> (r: bool)
        ensures
            r == (self.spec_count(t) > 0),
    {
        self.count(t) > 0
    }

    /// Whether the tally has no entries at all.
    pub fn is_empty(&self) -> (r: bool)
        ensures
            r == (forall|t: PieceType| self.spec_count(t) == 0),
    {
        let r = self.kings == 0 && self.queens == 0 && self.rooks == 0 && self.bishops == 0
            && self.knights == 0 && self.pawns == 0;
        proof {
            if r {
                assert(forall|t: PieceType| self.spec_count(t) == 0) by {
                    assert forall|t: PieceType| self.spec_count(t) == 0 by {
                        match t {
                            PieceType::King => {},
                            PieceType::Queen => {},
                            PieceType::Rook => {},
                            PieceType::Bishop => {},
                            PieceType::Knight => {},
                            PieceType::Pawn => {},
                        }
                    }
                }
            } else {
                if self.kings != 0 {
                    assert(self.spec_count(PieceType::King) != 0);
                } else if self.queens != 0 {
                    assert(self.spec_count(PieceType::Queen) != 0);
                } else if self.rooks != 0 {
                    assert(self.spec_count(PieceType::Rook) != 0);
                } else if self.bishops != 0 {
                    assert(self.spec_count(PieceType::Bishop) != 0);
                } else if self.knights != 0 {
                    assert(self.spec_count(PieceType::Knight) != 0);
                } else {
                    assert(self.spec_count(PieceType::Pawn) != 0);
                }
            }
        }
        r
    }

    /// Add one capture of the given type.
    pub(crate) fn inc(&mut self, t: PieceType)
        requires
            old(self).spec_count(t) < 255,
        ensures
            *final(self) == old(self).spec_inc(t),
    {
        match t {
            PieceType::King => self.kings = self.kings + 1,
            PieceType::Queen => self.queens = self.queens + 1,
            PieceType::Rook => self.rooks = self.rooks + 1,
            PieceType::Bishop => self.bishops = self.bishops + 1,
            PieceType::Knight => self.knights = self.knights + 1,
            PieceType::Pawn => self.pawns = self.pawns + 1,
        }
    }

    /// Remove one capture of the given type.
    pub(crate) fn dec(&mut self, t: PieceType)
        requires
            old(self).spec_count(t) >= 1,
        ensures
            *final(self) == old(self).spec_dec(t),
    {
        match t {
            PieceType::King => self.kings = self.kings - 1,
            PieceType::Queen => self.queens = self.queens - 1,
            PieceType::Rook => self.rooks = self.rooks - 1,
            PieceType::Bishop => self.bishops = self.bishops - 1,
            PieceType::Knight => self.knights = self.knights - 1,
            PieceType::Pawn => self.pawns = self.pawns - 1,
        }
    }
}

} // verus!
