//! The board: the 8x8 grid, the side to move, the move history, the capture
//! tallies, and the whole rules engine over them.

use vstd::prelude::*;
use vstd::string::StrSliceExecFns;
use crate::color::Color;
use crate::piece::{Piece, PieceType};
use crate::space::Space;
use crate::move_record::MoveRecord;
use crate::tally::CaptureTally;
use crate::rules;
use crate::rules::BoardView;

verus! {

/// A full game state. The grid is stored as 64 spaces in rank-major order:
/// square `(x, y)` sits at index `y * 8 + x`.
#[derive(Clone, Debug)]
pub struct Board {
    pub spaces: Vec<Space>,
    pub turn_color: Color,
    pub moves: Vec<MoveRecord>,
    pub captured_by_white: CaptureTally,
    pub captured_by_black: CaptureTally,
}

impl View for Board {
    type V = BoardView;

    open spec fn view(&self) -> BoardView {
        BoardView {
            grid: self.spaces@,
            turn: self.turn_color,
            moves: self.moves@,
            captured_by_white: self.captured_by_white,
            captured_by_black: self.captured_by_black,
        }
    }
}

/// The first scan index holding the king, given a witness index `i` with no
/// king before it.
proof fn lemma_first_king_from(g: Seq<Space>, c: Color, k: int, i: int)
    requires
        0 <= k <= i < 64,
        rules::is_king_at(g, c, i),
        forall|j: int| k <= j < i ==> !rules::is_king_at(g, c, j),
    ensures
        rules::first_king_from(g, c, k) == i,
    decreases i - k,
{
    if k < i {
        lemma_first_king_from(g, c, k + 1, i);
    }
}

/// An exec mirror of `rules::square_color`.
fn exec_square_color(x: u8, y: u8) -> (r: Color)
    requires
        x < 8,
        y < 8,
    ensures
        r == rules::square_color(x as int, y as int),
{
    if (x + y) % 2 == 0 {
        Color::Black
    } else {
        Color::White
    }
}

impl Board {
    /// Well-formedness: the state satisfies the model's invariant.
    pub open spec fn wf(&self) -> bool {
        rules::wf(self@)
    }

    /// The flat index of square `(x, y)`.
    fn sq_index(x: u8, y: u8) -> (r: usize)
        requires
            x < 8,
            y < 8,
        ensures
            r == rules::idx(x as int, y as int),
    {
        (y as usize) * 8 + (x as usize)
    }

    /// The occupant of square `(x, y)`, copied out.
    fn piece_on(&self, x: u8, y: u8) -> (r: Option<Piece>)
        requires
            self.spaces@.len() == 64,
            x < 8,
            y < 8,
        ensures
            r == rules::piece_at(self@, x as int, y as int),
    {
        let i = Self::sq_index(x, y);
        self.spaces[i].piece
    }

    /// Empty square `(x, y)`, leaving everything else as it is.
    fn grid_clear(&mut self, x: u8, y: u8)
        requires
            old(self).spaces@.len() == 64,
            x < 8,
            y < 8,
        ensures
            final(self).spaces@ == rules::clear_sq(old(self).spaces@, x, y),
            final(self).turn_color == old(self).turn_color,
            final(self).moves == old(self).moves,
            final(self).captured_by_white == old(self).captured_by_white,
            final(self).captured_by_black == old(self).captured_by_black,
    {
        let i = Self::sq_index(x, y);
        let c = self.spaces[i].color;
        self.spaces.set(i, Space { color: c, piece: None });
    }

    /// Put piece `p` on square `(x, y)`, leaving everything else as it is.
    fn grid_put(&mut self, x: u8, y: u8, p: Piece)
        requires
            old(self).spaces@.len() == 64,
            x < 8,
            y < 8,
        ensures
            final(self).spaces@ == rules::put_sq(old(self).spaces@, x, y, p),
            final(self).turn_color == old(self).turn_color,
            final(self).moves == old(self).moves,
            final(self).captured_by_white == old(self).captured_by_white,
            final(self).captured_by_black == old(self).captured_by_black,
    {
        let i = Self::sq_index(x, y);
        let c = self.spaces[i].color;
        self.spaces.set(i, Space { color: c, piece: Some(p) });
    }

    /// An empty, well-colored grid.
    fn empty_spaces() -> (r: Vec<Space>)
        ensures
            r@ == rules::empty_grid(),
    {
        let mut spaces: Vec<Space> = Vec::new();
        let mut i: usize = 0;
        while i < 64
            invariant
                i <= 64,
                spaces@.len() == i,
                forall|j: int| 0 <= j < i ==> spaces@[j] == rules::empty_grid()[j],
            decreases 64 - i,
        {
            let x = (i % 8) as u8;
            let y = (i / 8) as u8;
            spaces.push(Space { color: exec_square_color(x, y), piece: None });
            i = i + 1;
        }
        proof {
            assert(spaces@ =~= rules::empty_grid());
        }
        spaces
    }

    /// The opening-position occupant of square `(x, y)`.
    fn initial_piece_on(x: u8, y: u8) -> (r: Option<Piece>)
        requires
            x < 8,
            y < 8,
        ensures
            r == rules::initial_piece(x as int, y as int),
    {
        if y == 0 || y == 7 {
            let color = if y == 0 {
                Color::White
            } else {
                Color::Black
            };
            let piece_type = if x == 0 || x == 7 {
                PieceType::Rook
            } else if x == 1 || x == 6 {
                PieceType::Knight
            } else if x == 2 || x == 5 {
                PieceType::Bishop
            } else if x == 3 {
                PieceType::Queen
            } else {
                PieceType::King
            };
            Some(Piece { color, has_moved: false, piece_type })
        } else if y == 1 {
            Some(Piece { color: Color::White, has_moved: false, piece_type: PieceType::Pawn })
        } else if y == 6 {
            Some(Piece { color: Color::Black, has_moved: false, piece_type: PieceType::Pawn })
        } else {
            None
        }
    }

    /// The standard opening position: White to move, empty history and
    /// tallies.
    pub fn new() -> (r: Self)
        ensures
            r.wf(),
            r@.grid == rules::initial_grid(),
            r@.turn == Color::White,
            r@.moves == Seq::<MoveRecord>::empty(),
            r@.captured_by_white == CaptureTally::empty(),
            r@.captured_by_black == CaptureTally::empty(),
    {
        let mut spaces: Vec<Space> = Vec::new();
        let mut i: usize = 0;
        while i < 64
            invariant
                i <= 64,
                spaces@.len() == i,
                forall|j: int| 0 <= j < i ==> spaces@[j] == rules::initial_grid()[j],
            decreases 64 - i,
        {
            let x = (i % 8) as u8;
            let y = (i / 8) as u8;
            spaces.push(Space { color: exec_square_color(x, y), piece: Self::initial_piece_on(x, y) });
            i = i + 1;
        }
        proof {
            assert(spaces@ =~= rules::initial_grid());
        }
        let r = Board {
            spaces,
            turn_color: Color::White,
            moves: Vec::new(),
            captured_by_white: CaptureTally::new(),
            captured_by_black: CaptureTally::new(),
        };
        proof {
            rules::lemma_occ_bounds(r@.grid);
        }
        r
    }

    /// An empty board holding only the given `(piece, x, y)` placements,
    /// with `starting_color` to move. No legality is checked on placement;
    /// a later placement on the same square replaces the earlier one.
    pub fn make_custom(placements: Vec<(Piece, u8, u8)>, starting_color: Color) -> (r: Self)
        requires
            forall|i: int|
                0 <= i < placements@.len() ==> (#[trigger] placements@[i]).1 < 8
                    && placements@[i].2 < 8,
        ensures
            r.wf(),
            r@.grid == rules::place_all(rules::empty_grid(), placements@),
            r@.turn == starting_color,
            r@.moves == Seq::<MoveRecord>::empty(),
            r@.captured_by_white == CaptureTally::empty(),
            r@.captured_by_black == CaptureTally::empty(),
    {
        let mut board = Board {
            spaces: Self::empty_spaces(),
            turn_color: starting_color,
            moves: Vec::new(),
            captured_by_white: CaptureTally::new(),
            captured_by_black: CaptureTally::new(),
        };
        let mut k: usize = 0;
        while k < placements.len()
            invariant
                k <= placements@.len(),
                forall|i: int|
                    0 <= i < placements@.len() ==> (#[trigger] placements@[i]).1 < 8
                        && placements@[i].2 < 8,
                board.spaces@.len() == 64,
                forall|i: int|
                    0 <= i < 64 ==> (#[trigger] board.spaces@[i]).color == rules::square_color(
                        i % 8,
                        i / 8,
                    ),
                board.spaces@ == rules::place_all(rules::empty_grid(), placements@.take(k as int)),
                board.turn_color == starting_color,
                board.moves@ == Seq::<MoveRecord>::empty(),
                board.captured_by_white == CaptureTally::empty(),
                board.captured_by_black == CaptureTally::empty(),
            decreases placements@.len() - k,
        {
            let (p, x, y) = placements[k];
            board.grid_put(x, y, p);
            proof {
                let taken = placements@.take(k as int);
                let taken1 = placements@.take(k + 1int);
                assert(taken1.drop_last() =~= taken);
                assert(taken1.last() == placements@[k as int]);
            }
            k = k + 1;
        }
        proof {
            assert(placements@.take(placements@.len() as int) =~= placements@);
            rules::lemma_occ_bounds(board@.grid);
        }
        board
    }

    /// The square at `(x, y)`.
    pub fn space(&self, x: u8, y: u8) -> (r: &Space)
        requires
            self.wf(),
            x < 8,
            y < 8,
        ensures
            *r == self@.grid[rules::idx(x as int, y as int)],
    {
        let i = Self::sq_index(x, y);
        &self.spaces[i]
    }

    /// The whole grid, in rank-major order.
    pub fn spaces(&self) -> (r: &Vec<Space>)
        ensures
            r@ == self@.grid,
    {
        &self.spaces
    }

    /// The side to move.
    pub fn turn_color(&self) -> (r: Color)
        ensures
            r == self@.turn,
    {
        self.turn_color
    }

    /// The tally of pieces White has captured.
    pub fn captured_by_white(&self) -> (r: CaptureTally)
        ensures
            r == self@.captured_by_white,
    {
        self.captured_by_white
    }

    /// The tally of pieces Black has captured.
    pub fn captured_by_black(&self) -> (r: CaptureTally)
        ensures
            r == self@.captured_by_black,
    {
        self.captured_by_black
    }

    /// Legality of a pawn move, as a pure query on the current state.
    pub fn pawn_can_move(&self, x1: u8, y1: u8, x2: u8, y2: u8) -> (r: bool)
        requires
            self.wf(),
            x1 < 8,
            y1 < 8,
            x2 < 8,
            y2 < 8,
            rules::piece_at(self@, x1 as int, y1 as int) matches Some(p) && p.piece_type
                == PieceType::Pawn,
        ensures
            r == rules::pawn_ok(self@, x1, y1, x2, y2),
    {
        let p = self.piece_on(x1, y1).unwrap();
        let q = self.piece_on(x2, y2);
        match p.color {
            Color::White => {
                (!p.has_moved && y1 + 2 == y2 && x1 == x2 && q.is_none() && self.piece_on(
                    x1,
                    y1 + 1,
                ).is_none()) || (y1 + 1 == y2 && ((x1 == x2 && q.is_none()) || ((x1 + 1 == x2 || x2
                    + 1 == x1) && q.is_some() && q.unwrap().color == Color::Black)))
            },
            Color::Black => {
                (!p.has_moved && y2 + 2 == y1 && x1 == x2 && q.is_none() && self.piece_on(
                    x1,
                    y1 - 1,
                ).is_none()) || (y2 + 1 == y1 && ((x1 == x2 && q.is_none()) || ((x1 + 1 == x2 || x2
                    + 1 == x1) && q.is_some() && q.unwrap().color == Color::White)))
            },
        }
    }

    /// Legality of a rook move (also used for the queen's straight lines),
    /// as a pure query on the current state.
    pub fn rook_can_move(&self, x1: u8, y1: u8, x2: u8, y2: u8) -> (r: bool)
        requires
            self.wf(),
            x1 < 8,
            y1 < 8,
            x2 < 8,
            y2 < 8,
            rules::piece_at(self@, x1 as int, y1 as int) matches Some(p) && (p.piece_type
                == PieceType::Rook || p.piece_type == PieceType::Queen),
        ensures
            r == rules::rook_ok(self@, x1, y1, x2, y2),
    {
        let p = self.piece_on(x1, y1).unwrap();
        let q = self.piece_on(x2, y2);
        if q.is_some() && q.unwrap().color == p.color {
            return false;
        }
        if x1 != x2 && y1 != y2 {
            return false;
        }
        if x1 == x2 {
            if y1 < y2 {
                let mut i = y1 + 1;
                while i < y2
                    invariant
                        self.wf(),
                        x1 < 8,
                        y1 < i <= y2 < 8,
                        forall|j: int|
                            y1 < j < i ==> rules::piece_at(self@, x1 as int, j) is None,
                    decreases y2 - i,
                {
                    if self.piece_on(x1, i).is_some() {
                        return false;
                    }
                    i = i + 1;
                }
            } else {
                let mut i = y2 + 1;
                while i < y1
                    invariant
                        self.wf(),
                        x1 < 8,
                        y2 < i <= y1 < 8,
                        forall|j: int|
                            y2 < j < i ==> rules::piece_at(self@, x1 as int, j) is None,
                    decreases y1 - i,
                {
                    if self.piece_on(x1, i).is_some() {
                        return false;
                    }
                    i = i + 1;
                }
            }
        } else {
            if x1 < x2 {
                let mut i = x1 + 1;
                while i < x2
                    invariant
                        self.wf(),
                        y1 < 8,
                        x1 < i <= x2 < 8,
                        forall|j: int|
                            x1 < j < i ==> rules::piece_at(self@, j, y1 as int) is None,
                    decreases x2 - i,
                {
                    if self.piece_on(i, y1).is_some() {
                        return false;
                    }
                    i = i + 1;
                }
            } else {
                let mut i = x2 + 1;
                while i < x1
                    invariant
                        self.wf(),
                        y1 < 8,
                        x2 < i <= x1 < 8,
                        forall|j: int|
                            x2 < j < i ==> rules::piece_at(self@, j, y1 as int) is None,
                    decreases x1 - i,
                {
                    if self.piece_on(i, y1).is_some() {
                        return false;
                    }
                    i = i + 1;
                }
            }
        }
        true
    }

    /// Legality of a bishop move (also used for the queen's diagonals), as a
    /// pure query on the current state.
    pub fn bishop_can_move(&self, x1: u8, y1: u8, x2: u8, y2: u8) -> (r: bool)
        requires
            self.wf(),
            x1 < 8,
            y1 < 8,
            x2 < 8,
            y2 < 8,
            rules::piece_at(self@, x1 as int, y1 as int) matches Some(p) && (p.piece_type
                == PieceType::Bishop || p.piece_type == PieceType::Queen),
        ensures
            r == rules::bishop_ok(self@, x1, y1, x2, y2),
    {
        let p = self.piece_on(x1, y1).unwrap();
        let q = self.piece_on(x2, y2);
        if q.is_some() && q.unwrap().color == p.color {
            return false;
        }
        let dx = if x1 < x2 {
            x2 - x1
        } else {
            x1 - x2
        };
        let dy = if y1 < y2 {
            y2 - y1
        } else {
            y1 - y2
        };
        if dx != dy {
            return false;
        }
        let mut i: u8 = 1;
        if x1 < x2 {
            if y1 < y2 {
                while i < dx
                    invariant
                        self.wf(),
                        x1 < x2 < 8,
                        y1 < y2 < 8,
                        dx == x2 - x1,
                        dx == y2 - y1,
                        1 <= i <= dx,
                        forall|j: int| 0 < j < i ==> #[trigger] rules::diag_empty_at(self@, x1, y1, 1, 1, j),
                    decreases dx - i,
                {
                    if self.piece_on(x1 + i, y1 + i).is_some() {
                        proof {
                            assert(!rules::diag_empty_at(self@, x1, y1, 1, 1, i as int));
                        }
                        return false;
                    }
                    i = i + 1;
                }
            } else {
                while i < dx
                    invariant
                        self.wf(),
                        x1 < x2 < 8,
                        y2 <= y1 < 8,
                        dx == x2 - x1,
                        dx == y1 - y2,
                        1 <= i <= dx,
                        forall|j: int| 0 < j < i ==> #[trigger] rules::diag_empty_at(self@, x1, y1, 1, -1, j),
                    decreases dx - i,
                {
                    if self.piece_on(x1 + i, y1 - i).is_some() {
                        proof {
                            assert(!rules::diag_empty_at(self@, x1, y1, 1, -1, i as int));
                        }
                        return false;
                    }
                    i = i + 1;
                }
            }
        } else {
            if y1 < y2 {
                while i < dx
                    invariant
                        self.wf(),
                        x2 <= x1 < 8,
                        y1 < y2 < 8,
                        dx == x1 - x2,
                        dx == y2 - y1,
                        1 <= i <= dx,
                        forall|j: int| 0 < j < i ==> #[trigger] rules::diag_empty_at(self@, x1, y1, -1, 1, j),
                    decreases dx - i,
                {
                    if self.piece_on(x1 - i, y1 + i).is_some() {
                        proof {
                            assert(!rules::diag_empty_at(self@, x1, y1, -1, 1, i as int));
                        }
                        return false;
                    }
                    i = i + 1;
                }
            } else {
                while i < dx
                    invariant
                        self.wf(),
                        x2 <= x1 < 8,
                        y2 <= y1 < 8,
                        dx == x1 - x2,
                        dx == y1 - y2,
                        1 <= i <= dx,
                        forall|j: int| 0 < j < i ==> #[trigger] rules::diag_empty_at(self@, x1, y1, -1, -1, j),
                    decreases dx - i,
                {
                    if self.piece_on(x1 - i, y1 - i).is_some() {
                        proof {
                            assert(!rules::diag_empty_at(self@, x1, y1, -1, -1, i as int));
                        }
                        return false;
                    }
                    i = i + 1;
                }
            }
        }
        true
    }

    /// Legality of a queen move: rook-legal or bishop-legal.
    pub fn queen_can_move(&self, x1: u8, y1: u8, x2: u8, y2: u8) -> (r: bool)
        requires
            self.wf(),
            x1 < 8,
            y1 < 8,
            x2 < 8,
            y2 < 8,
            rules::piece_at(self@, x1 as int, y1 as int) matches Some(p) && p.piece_type
                == PieceType::Queen,
        ensures
            r == rules::queen_ok(self@, x1, y1, x2, y2),
    {
        self.rook_can_move(x1, y1, x2, y2) || self.bishop_can_move(x1, y1, x2, y2)
    }

    /// The geometric part of a king move, which is also the king's attack
    /// rule: one step in any direction, destination not of the mover's color.
    fn king_attacks(&self, x1: u8, y1: u8, x2: u8, y2: u8) -> (r: bool)
        requires
            self.wf(),
            x1 < 8,
            y1 < 8,
            x2 < 8,
            y2 < 8,
            rules::piece_at(self@, x1 as int, y1 as int) is Some,
        ensures
            r == rules::king_geom_ok(self@, x1, y1, x2, y2),
    {
        let p = self.piece_on(x1, y1).unwrap();
        let q = self.piece_on(x2, y2);
        if q.is_some() && q.unwrap().color == p.color {
            return false;
        }
        let dx = if x1 < x2 {
            x2 - x1
        } else {
            x1 - x2
        };
        let dy = if y1 < y2 {
            y2 - y1
        } else {
            y1 - y2
        };
        dx <= 1 && dy <= 1
    }

    /// Legality of a king move, as a pure query on the current state: one
    /// step in any direction, onto a square the opponent does not attack.
    pub fn king_can_move(&self, x1: u8, y1: u8, x2: u8, y2: u8) -> (r: bool)
        requires
            self.wf(),
            x1 < 8,
            y1 < 8,
            x2 < 8,
            y2 < 8,
            rules::piece_at(self@, x1 as int, y1 as int) matches Some(p) && p.piece_type
                == PieceType::King,
        ensures
            r == rules::king_ok(self@, x1, y1, x2, y2),
    {
        let p = self.piece_on(x1, y1).unwrap();
        if !self.king_attacks(x1, y1, x2, y2) {
            return false;
        }
        if self.is_space_attacked(x2, y2, p.color) {
            return false;
        }
        true
    }

    /// Legality of a knight move, as a pure query on the current state.
    pub fn knight_can_move(&self, x1: u8, y1: u8, x2: u8, y2: u8) -> (r: bool)
        requires
            self.wf(),
            x1 < 8,
            y1 < 8,
            x2 < 8,
            y2 < 8,
            rules::piece_at(self@, x1 as int, y1 as int) matches Some(p) && p.piece_type
                == PieceType::Knight,
        ensures
            r == rules::knight_ok(self@, x1, y1, x2, y2),
    {
        let p = self.piece_on(x1, y1).unwrap();
        let q = self.piece_on(x2, y2);
        if q.is_some() && q.unwrap().color == p.color {
            return false;
        }
        let dx = if x1 < x2 {
            x2 - x1
        } else {
            x1 - x2
        };
        let dy = if y1 < y2 {
            y2 - y1
        } else {
            y1 - y2
        };
        (dx == 2 && dy == 1) || (dx == 1 && dy == 2)
    }

    /// Whether the piece standing on `(x0, y0)` attacks `(x, y)`.
    fn piece_attacks(&self, x0: u8, y0: u8, x: u8, y: u8) -> (r: bool)
        requires
            self.wf(),
            x0 < 8,
            y0 < 8,
            x < 8,
            y < 8,
            rules::piece_at(self@, x0 as int, y0 as int) is Some,
        ensures
            r == rules::attacks(self@, x0, y0, x, y),
    {
        let p = self.piece_on(x0, y0).unwrap();
        match p.piece_type {
            PieceType::Pawn => self.pawn_can_move(x0, y0, x, y),
            PieceType::Rook => self.rook_can_move(x0, y0, x, y),
            PieceType::Bishop => self.bishop_can_move(x0, y0, x, y),
            PieceType::Queen => self.queen_can_move(x0, y0, x, y),
            PieceType::King => self.king_attacks(x0, y0, x, y),
            PieceType::Knight => self.knight_can_move(x0, y0, x, y),
        }
    }

    /// Whether any piece opposing `color` attacks square `(x, y)`: a pure
    /// geometric and blocking test against the current occupancy.
    pub fn is_space_attacked(&self, x: u8, y: u8, color: Color) -> (r: bool)
        requires
            self.wf(),
            x < 8,
            y < 8,
        ensures
            r == rules::attacked(self@, x, y, color),
    {
        let mut x0: u8 = 0;
        while x0 < 8
            invariant
                self.wf(),
                x < 8,
                y < 8,
                x0 <= 8,
                forall|a: u8, b: u8|
                    a < x0 && b < 8 ==> !rules::attacker_at(self@, a, b, x, y, color),
            decreases 8 - x0,
        {
            let mut y0: u8 = 0;
            while y0 < 8
                invariant
                    self.wf(),
                    x < 8,
                    y < 8,
                    x0 < 8,
                    y0 <= 8,
                    forall|a: u8, b: u8|
                        a < x0 && b < 8 ==> !rules::attacker_at(self@, a, b, x, y, color),
                    forall|b: u8| b < y0 ==> !rules::attacker_at(self@, x0, b, x, y, color),
                decreases 8 - y0,
            {
                if !(x0 == x && y0 == y) {
                    if let Some(p) = self.piece_on(x0, y0) {
                        if p.color != color {
                            if self.piece_attacks(x0, y0, x, y) {
                                proof {
                                    assert(rules::attacker_at(self@, x0, y0, x, y, color));
                                }
                                return true;
                            }
                        }
                    }
                }
                y0 = y0 + 1;
            }
            x0 = x0 + 1;
        }
        false
    }

    /// Whether `color` is in check: its king's square is attacked by the
    /// opponent. The board must hold a king of that color.
    pub fn is_in_check(&self, color: Color) -> (r: bool)
        requires
            self.wf(),
            rules::has_king(self@, color),
        ensures
            r == rules::in_check(self@, color),
    {
        let mut i: usize = 0;
        while i < 64
            invariant
                self.wf(),
                rules::has_king(self@, color),
                i <= 64,
                forall|j: int| 0 <= j < i ==> !rules::is_king_at(self@.grid, color, j),
            decreases 64 - i,
        {
            let x = (i % 8) as u8;
            let y = (i / 8) as u8;
            if let Some(p) = self.piece_on(x, y) {
                if p.piece_type == PieceType::King && p.color == color {
                    proof {
                        lemma_first_king_from(self@.grid, color, 0, i as int);
                    }
                    return self.is_space_attacked(x, y, color);
                }
            }
            i = i + 1;
        }
        proof {
            let w = choose|j: int| 0 <= j < 64 && rules::is_king_at(self@.grid, color, j);
            assert(!rules::is_king_at(self@.grid, color, w));
            assert(false);
        }
        false
    }

    /// Pass the turn to the other side.
    fn toggle_turn(&mut self)
        ensures
            final(self).turn_color == old(self).turn_color.spec_other(),
            final(self).spaces == old(self).spaces,
            final(self).moves == old(self).moves,
            final(self).captured_by_white == old(self).captured_by_white,
            final(self).captured_by_black == old(self).captured_by_black,
    {
        self.turn_color = match self.turn_color {
            Color::White => Color::Black,
            Color::Black => Color::White,
        };
    }

    /// Try one move and roll it back: whether `move_piece` would accept it,
    /// with the board left exactly as it was.
    fn escapes(&mut self, x1: u8, y1: u8, x2: u8, y2: u8) -> (r: bool)
        requires
            old(self).wf(),
            x1 < 8,
            y1 < 8,
            x2 < 8,
            y2 < 8,
            rules::commits(old(self)@, x1, y1, x2, y2) ==> rules::has_king(
                old(self)@,
                old(self)@.turn,
            ),
        ensures
            final(self).wf(),
            final(self)@ == old(self)@,
            r == rules::move_ok(old(self)@, x1, y1, x2, y2),
    {
        let ghost b = old(self)@;
        if self.move_piece(x1, y1, x2, y2) {
            proof {
                rules::lemma_commit_undo_roundtrip(b, x1, y1, x2, y2);
            }
            self.undo_last_move();
            true
        } else {
            false
        }
    }

    /// Whether `color` is checkmated: it is in check, and no move of any of
    /// its pieces is accepted. A pure query: every trial move is undone
    /// before the answer is returned, so the board is left exactly as it
    /// was. The board must hold a king of that color.
    pub fn is_in_checkmate(&mut self, color: Color) -> (r: bool)
        requires
            old(self).wf(),
            rules::has_king(old(self)@, color),
        ensures
            final(self).wf(),
            final(self)@ == old(self)@,
            r == rules::checkmate(old(self)@, color),
    {
        let ghost b = old(self)@;
        if !self.is_in_check(color) {
            return false;
        }
        let mut x1: u8 = 0;
        while x1 < 8
            invariant
                self.wf(),
                b == old(self)@,
                self@ == b,
                rules::has_king(b, color),
                x1 <= 8,
                forall|a: u8, c: u8|
                    a < x1 && c < 8 && #[trigger] rules::color_at(b, color, a as int, c as int)
                        ==> rules::no_escape_from(b, a, c),
            decreases 8 - x1,
        {
            let mut y1: u8 = 0;
            while y1 < 8
                invariant
                    self.wf(),
                    b == old(self)@,
                    self@ == b,
                    rules::has_king(b, color),
                    x1 < 8,
                    y1 <= 8,
                    forall|a: u8, c: u8|
                        a < x1 && c < 8 && #[trigger] rules::color_at(b, color, a as int, c as int)
                            ==> rules::no_escape_from(b, a, c),
                    forall|c: u8|
                        c < y1 && #[trigger] rules::color_at(b, color, x1 as int, c as int)
                            ==> rules::no_escape_from(b, x1, c),
                decreases 8 - y1,
            {
                let own = match self.piece_on(x1, y1) {
                    Some(p) => p.color == color,
                    None => false,
                };
                if own {
                    let mut x2: u8 = 0;
                    while x2 < 8
                        invariant
                            self.wf(),
                            b == old(self)@,
                            self@ == b,
                            rules::has_king(b, color),
                            x1 < 8,
                            y1 < 8,
                            x2 <= 8,
                            rules::color_at(b, color, x1 as int, y1 as int),
                            forall|d: u8, e: u8|
                                d < x2 && e < 8 ==> !rules::move_ok(b, x1, y1, d, e),
                        decreases 8 - x2,
                    {
                        let mut y2: u8 = 0;
                        while y2 < 8
                            invariant
                                self.wf(),
                                b == old(self)@,
                                self@ == b,
                                rules::has_king(b, color),
                                x1 < 8,
                                y1 < 8,
                                x2 < 8,
                                y2 <= 8,
                                rules::color_at(b, color, x1 as int, y1 as int),
                                forall|d: u8, e: u8|
                                    d < x2 && e < 8 ==> !rules::move_ok(b, x1, y1, d, e),
                                forall|e: u8| e < y2 ==> !rules::move_ok(b, x1, y1, x2, e),
                            decreases 8 - y2,
                        {
                            if self.escapes(x1, y1, x2, y2) {
                                return false;
                            }
                            y2 = y2 + 1;
                        }
                        x2 = x2 + 1;
                    }
                    proof {
                        assert(rules::no_escape_from(b, x1, y1));
                    }
                }
                y1 = y1 + 1;
            }
            x1 = x1 + 1;
        }
        proof {
            assert(rules::no_escape(b, color));
        }
        true
    }

    /// Parse a textual board: eight rank strings (rank 8 first, eight
    /// squares each, `_` for empty, a piece letter otherwise, uppercase for
    /// White) and a ninth string whose first character names the side to
    /// move. The result has no move history and no has-moved flags, so
    /// castling and en passant are not available until later moves establish
    /// the history they need.
    pub fn from_strs(state: &Vec<&str>) -> (r: Self)
        requires
            state@.len() == 9,
            forall|i: int| 0 <= i < 8 ==> (#[trigger] state@[i])@.len() == 8,
            forall|i: int, j: int|
                0 <= i < 8 && 0 <= j < 8 ==> rules::valid_piece_char(#[trigger] state@[i]@[j]),
            state@[8]@.len() >= 1,
            state@[8]@[0] == 'W' || state@[8]@[0] == 'B',
        ensures
            r.wf(),
            r@.grid == rules::parsed_grid(state@),
            r@.turn == if state@[8]@[0] == 'W' {
                Color::White
            } else {
                Color::Black
            },
            r@.moves == Seq::<MoveRecord>::empty(),
            r@.captured_by_white == CaptureTally::empty(),
            r@.captured_by_black == CaptureTally::empty(),
    {
        let mut spaces: Vec<Space> = Vec::new();
        let mut i: usize = 0;
        while i < 64
            invariant
                state@.len() == 9,
                forall|k: int| 0 <= k < 8 ==> (#[trigger] state@[k])@.len() == 8,
                i <= 64,
                spaces@.len() == i,
                forall|j: int| 0 <= j < i ==> spaces@[j] == rules::parsed_grid(state@)[j],
            decreases 64 - i,
        {
            let x = (i % 8) as u8;
            let y = (i / 8) as u8;
            let row: &str = state[7 - (y as usize)];
            let c = row.get_char(x as usize);
            spaces.push(Space { color: exec_square_color(x, y), piece: Self::piece_from_char(c) });
            i = i + 1;
        }
        proof {
            assert(spaces@ =~= rules::parsed_grid(state@));
        }
        let marker = state[8];
        let turn_color = if marker.get_char(0) == 'W' {
            Color::White
        } else {
            Color::Black
        };
        let r = Board {
            spaces,
            turn_color,
            moves: Vec::new(),
            captured_by_white: CaptureTally::new(),
            captured_by_black: CaptureTally::new(),
        };
        proof {
            rules::lemma_occ_bounds(r@.grid);
        }
        r
    }

    /// The occupant a square character of the textual board format denotes.
    fn piece_from_char(c: char) -> (r: Option<Piece>)
        ensures
            r == rules::char_piece(c),
    {
        match c {
            'K' => Some(Piece::new(PieceType::King, Color::White)),
            'k' => Some(Piece::new(PieceType::King, Color::Black)),
            'Q' => Some(Piece::new(PieceType::Queen, Color::White)),
            'q' => Some(Piece::new(PieceType::Queen, Color::Black)),
            'R' => Some(Piece::new(PieceType::Rook, Color::White)),
            'r' => Some(Piece::new(PieceType::Rook, Color::Black)),
            'B' => Some(Piece::new(PieceType::Bishop, Color::White)),
            'b' => Some(Piece::new(PieceType::Bishop, Color::Black)),
            'N' => Some(Piece::new(PieceType::Knight, Color::White)),
            'n' => Some(Piece::new(PieceType::Knight, Color::Black)),
            'P' => Some(Piece::new(PieceType::Pawn, Color::White)),
            'p' => Some(Piece::new(PieceType::Pawn, Color::Black)),
            _ => None,
        }
    }

    /// Whether the attempted move triggers the en passant path.
    fn is_ep_trigger(&self, x1: u8, y1: u8, x2: u8, y2: u8) -> (r: bool)
        requires
            self.wf(),
            x1 < 8,
            y1 < 8,
            x2 < 8,
            y2 < 8,
            rules::piece_at(self@, x1 as int, y1 as int) is Some,
        ensures
            r == rules::ep_trigger(self@, x1, y1, x2, y2),
    {
        let p = self.piece_on(x1, y1).unwrap();
        if p.piece_type != PieceType::Pawn {
            return false;
        }
        if self.piece_on(x2, y2).is_some() {
            return false;
        }
        let rank_ok = (self.turn_color == Color::White && y1 == 4 && y2 == 5) || (self.turn_color
            == Color::Black && y1 == 3 && y2 == 2);
        if !rank_ok {
            return false;
        }
        if !(x1 + 1 == x2 || x2 + 1 == x1) {
            return false;
        }
        if self.moves.len() == 0 {
            return false;
        }
        proof {
            assert(rules::record_wf(self@.moves[self@.moves.len() - 1]));
        }
        let lm = self.moves[self.moves.len() - 1];
        if lm.piece_type != PieceType::Pawn {
            return false;
        }
        if lm.origin_x != lm.dest_x {
            return false;
        }
        if !(lm.origin_y + 2 == lm.dest_y || lm.dest_y + 2 == lm.origin_y) {
            return false;
        }
        if lm.dest_x != x2 || lm.dest_y != y1 {
            return false;
        }
        match self.piece_on(x2, y1) {
            Some(v) => v.piece_type == PieceType::Pawn && v.color != self.turn_color,
            None => false,
        }
    }

    /// Whether the attempted move has the shape of a castle: an unmoved king
    /// stepping two files on its home rank toward an unmoved rook of its
    /// color on the corner.
    fn is_castle_shape(&self, x1: u8, y1: u8, x2: u8, y2: u8) -> (r: bool)
        requires
            self.wf(),
            x1 < 8,
            y1 < 8,
            x2 < 8,
            y2 < 8,
            rules::piece_at(self@, x1 as int, y1 as int) is Some,
        ensures
            r == rules::castle_shape(self@, x1, y1, x2, y2),
    {
        let p = self.piece_on(x1, y1).unwrap();
        if p.piece_type != PieceType::King || p.has_moved {
            return false;
        }
        if !(x1 + 2 == x2 || x2 + 2 == x1) {
            return false;
        }
        if self.piece_on(x2, y2).is_some() {
            return false;
        }
        let rank: u8 = match p.color {
            Color::White => 0,
            Color::Black => 7,
        };
        if y1 != rank || y2 != rank {
            return false;
        }
        let cx: u8 = if x1 < x2 {
            7
        } else {
            0
        };
        match self.piece_on(cx, y1) {
            Some(r0) => r0.piece_type == PieceType::Rook && !r0.has_moved && r0.color == p.color,
            None => false,
        }
    }

    /// Whether a triggered castle may proceed: the squares between king and
    /// rook are empty, and the king does not start in, pass through, or land
    /// in an attacked square.
    fn is_castle_clear(&self, x1: u8, y1: u8, x2: u8, y2: u8) -> (r: bool)
        requires
            self.wf(),
            x1 < 8,
            y1 < 8,
            x2 < 8,
            y2 < 8,
            rules::piece_at(self@, x1 as int, y1 as int) is Some,
            rules::castle_shape(self@, x1, y1, x2, y2),
        ensures
            r == rules::castle_clear(self@, x1, y1, x2, y2),
    {
        let p = self.piece_on(x1, y1).unwrap();
        let c = p.color;
        if self.is_space_attacked(x1, y1, c) {
            return false;
        }
        if self.is_space_attacked(x2, y2, c) {
            return false;
        }
        if x1 < x2 {
            if self.is_space_attacked(x1 + 1, y1, c) {
                return false;
            }
            let mut i = x1 + 1;
            while i < 7
                invariant
                    self.wf(),
                    y1 < 8,
                    x1 < x2 < 8,
                    x1 < i <= 7,
                    forall|j: int| x1 < j < i ==> rules::piece_at(self@, j, y1 as int) is None,
                decreases 7 - i,
            {
                if self.piece_on(i, y1).is_some() {
                    proof {
                        assert(rules::piece_at(self@, i as int, y1 as int) is Some);
                        assert(!rules::castle_clear(self@, x1, y1, x2, y2));
                    }
                    return false;
                }
                i = i + 1;
            }
            true
        } else {
            if self.is_space_attacked(x1 - 1, y1, c) {
                return false;
            }
            let mut i: u8 = 1;
            while i < x1
                invariant
                    self.wf(),
                    y1 < 8,
                    x2 < x1 < 8,
                    1 <= i <= x1,
                    forall|j: int| 0 < j < i ==> rules::piece_at(self@, j, y1 as int) is None,
                decreases x1 - i,
            {
                if self.piece_on(i, y1).is_some() {
                    proof {
                        assert(rules::piece_at(self@, i as int, y1 as int) is Some);
                        assert(!rules::castle_clear(self@, x1, y1, x2, y2));
                    }
                    return false;
                }
                i = i + 1;
            }
            true
        }
    }

    /// Commit an en passant capture.
    fn commit_ep(&mut self, x1: u8, y1: u8, x2: u8, y2: u8)
        requires
            old(self).wf(),
            x1 < 8,
            y1 < 8,
            x2 < 8,
            y2 < 8,
            rules::basic_ok(old(self)@, x1, y1, x2, y2),
            rules::ep_trigger(old(self)@, x1, y1, x2, y2),
        ensures
            final(self).wf(),
            final(self)@ == rules::ep_applied(old(self)@, x1, y1, x2, y2),
    {
        let ghost b = old(self)@;
        let mut piece = self.piece_on(x1, y1).unwrap();
        let victim = self.piece_on(x2, y1).unwrap();
        self.grid_clear(x1, y1);
        self.grid_clear(x2, y1);
        proof {
            rules::lemma_tally_small(b, victim.piece_type);
        }
        match piece.color {
            Color::White => self.captured_by_white.inc(victim.piece_type),
            Color::Black => self.captured_by_black.inc(victim.piece_type),
        }
        self.moves.push(
            MoveRecord::new_en_passant(
                x1,
                y1,
                x2,
                y2,
                Some(victim),
                piece.piece_type,
                !piece.has_moved,
            ),
        );
        piece.mark_moved();
        self.grid_put(x2, y2, piece);
        self.toggle_turn();
        proof {
            assert(self@ =~= rules::ep_applied(b, x1, y1, x2, y2));
            rules::lemma_commit_preserves_wf(b, x1, y1, x2, y2);
        }
    }

    /// Commit a castle: king and rook move together.
    fn commit_castle(&mut self, x1: u8, y1: u8, x2: u8, y2: u8)
        requires
            old(self).wf(),
            x1 < 8,
            y1 < 8,
            x2 < 8,
            y2 < 8,
            rules::basic_ok(old(self)@, x1, y1, x2, y2),
            rules::castle_shape(old(self)@, x1, y1, x2, y2),
            rules::castle_clear(old(self)@, x1, y1, x2, y2),
        ensures
            final(self).wf(),
            final(self)@ == rules::castle_applied(old(self)@, x1, y1, x2, y2),
    {
        let ghost b = old(self)@;
        let mut piece = self.piece_on(x1, y1).unwrap();
        let cx: u8 = if x1 < x2 {
            7
        } else {
            0
        };
        let mut rook = self.piece_on(cx, y1).unwrap();
        self.grid_clear(x1, y1);
        self.grid_clear(cx, y1);
        self.moves.push(MoveRecord::new(x1, y1, x2, y2, None, piece.piece_type, !piece.has_moved));
        piece.mark_moved();
        self.grid_put(x2, y2, piece);
        rook.mark_moved();
        let rx: u8 = if x1 < x2 {
            x2 - 1
        } else {
            x2 + 1
        };
        self.grid_put(rx, y1, rook);
        self.toggle_turn();
        proof {
            assert(self@ =~= rules::castle_applied(b, x1, y1, x2, y2));
            rules::lemma_commit_preserves_wf(b, x1, y1, x2, y2);
        }
    }

    /// Commit a plain move, capturing whatever stands on the destination.
    fn commit_normal(&mut self, x1: u8, y1: u8, x2: u8, y2: u8)
        requires
            old(self).wf(),
            x1 < 8,
            y1 < 8,
            x2 < 8,
            y2 < 8,
            rules::basic_ok(old(self)@, x1, y1, x2, y2),
            !rules::ep_trigger(old(self)@, x1, y1, x2, y2),
            !rules::castle_shape(old(self)@, x1, y1, x2, y2),
            rules::type_ok(old(self)@, x1, y1, x2, y2),
        ensures
            final(self).wf(),
            final(self)@ == rules::normal_applied(old(self)@, x1, y1, x2, y2),
    {
        let ghost b = old(self)@;
        let mut piece = self.piece_on(x1, y1).unwrap();
        let piece2 = self.piece_on(x2, y2);
        self.grid_clear(x1, y1);
        if let Some(p2) = piece2 {
            proof {
                rules::lemma_tally_small(b, p2.piece_type);
            }
            match piece.color {
                Color::White => self.captured_by_white.inc(p2.piece_type),
                Color::Black => self.captured_by_black.inc(p2.piece_type),
            }
        }
        self.moves.push(
            MoveRecord::new(x1, y1, x2, y2, piece2, piece.piece_type, !piece.has_moved),
        );
        piece.mark_moved();
        self.grid_put(x2, y2, piece);
        self.toggle_turn();
        proof {
            assert(self@ =~= rules::normal_applied(b, x1, y1, x2, y2));
            rules::lemma_commit_preserves_wf(b, x1, y1, x2, y2);
        }
    }

    /// Attempt a move. Returns `true` exactly when the move is accepted, in
    /// which case the board changes to the committed state and the turn
    /// passes; on `false` the board is unchanged. A move is rejected when
    /// origin equals destination, the origin is empty or not the mover's,
    /// the per-type rule (or special-move rule) fails, or committing it
    /// would leave the mover's own king in check — the last is validated by
    /// tentatively applying the move and rolling it back via
    /// `undo_last_move`, so a move that would commit needs the mover's king
    /// on the board for that check to find.
    pub fn move_piece(&mut self, x1: u8, y1: u8, x2: u8, y2: u8) -> (r: bool)
        requires
            old(self).wf(),
            x1 < 8,
            y1 < 8,
            x2 < 8,
            y2 < 8,
            rules::commits(old(self)@, x1, y1, x2, y2) ==> rules::has_king(
                old(self)@,
                old(self)@.turn,
            ),
        ensures
            final(self).wf(),
            r == rules::move_ok(old(self)@, x1, y1, x2, y2),
            final(self)@ == rules::move_result(old(self)@, x1, y1, x2, y2),
    {
        let ghost b = old(self)@;
        if x1 == x2 && y1 == y2 {
            return false;
        }
        let piece = match self.piece_on(x1, y1) {
            Some(p) => p,
            None => {
                return false;
            },
        };
        let color = piece.color;
        if color != self.turn_color {
            return false;
        }
        if self.is_ep_trigger(x1, y1, x2, y2) {
            self.commit_ep(x1, y1, x2, y2);
            proof {
                rules::lemma_commit_preserves_king(b, x1, y1, x2, y2);
            }
            if self.is_in_check(color) {
                proof {
                    rules::lemma_commit_undo_roundtrip(b, x1, y1, x2, y2);
                }
                self.undo_last_move();
                return false;
            }
            return true;
        }
        if self.is_castle_shape(x1, y1, x2, y2) {
            if !self.is_castle_clear(x1, y1, x2, y2) {
                return false;
            }
            self.commit_castle(x1, y1, x2, y2);
            proof {
                rules::lemma_commit_preserves_king(b, x1, y1, x2, y2);
            }
            if self.is_in_check(color) {
                proof {
                    rules::lemma_commit_undo_roundtrip(b, x1, y1, x2, y2);
                }
                self.undo_last_move();
                return false;
            }
            return true;
        }
        let allowed = match piece.piece_type {
            PieceType::Pawn => self.pawn_can_move(x1, y1, x2, y2),
            PieceType::Rook => self.rook_can_move(x1, y1, x2, y2),
            PieceType::Bishop => self.bishop_can_move(x1, y1, x2, y2),
            PieceType::Queen => self.queen_can_move(x1, y1, x2, y2),
            PieceType::King => self.king_can_move(x1, y1, x2, y2),
            PieceType::Knight => self.knight_can_move(x1, y1, x2, y2),
        };
        if !allowed {
            return false;
        }
        self.commit_normal(x1, y1, x2, y2);
        proof {
            rules::lemma_commit_preserves_king(b, x1, y1, x2, y2);
        }
        if self.is_in_check(color) {
            proof {
                rules::lemma_commit_undo_roundtrip(b, x1, y1, x2, y2);
            }
            self.undo_last_move();
            return false;
        }
        true
    }

    /// Replace an eligible pawn — one standing on its farthest rank — with a
    /// fresh piece of the chosen type and the same color. A separate,
    /// deferred operation that `move_piece` never performs, and that
    /// `undo_last_move` does not reverse.
    pub fn promote_pawn(&mut self, x: u8, y: u8, piece_type: PieceType)
        requires
            old(self).wf(),
            x < 8,
            y < 8,
            rules::piece_at(old(self)@, x as int, y as int) matches Some(p) && p.piece_type
                == PieceType::Pawn && ((p.color == Color::White && y == 7) || (p.color
                == Color::Black && y == 0)),
        ensures
            final(self).wf(),
            final(self)@ == (BoardView {
                grid: rules::put_sq(
                    old(self)@.grid,
                    x,
                    y,
                    Piece {
                        color: rules::piece_at(old(self)@, x as int, y as int).unwrap().color,
                        has_moved: false,
                        piece_type,
                    },
                ),
                ..old(self)@
            }),
    {
        let ghost b = old(self)@;
        let p = self.piece_on(x, y).unwrap();
        let fresh = Piece::new(piece_type, p.color);
        self.grid_put(x, y, fresh);
        proof {
            rules::lemma_colors_put(b.grid, x, y, fresh);
            rules::lemma_occ_put(b.grid, x, y, fresh);
        }
    }

    /// Reverse the most recent committed move: the moved piece returns to
    /// its origin (its moved flag cleared when that was its first move), a
    /// captured piece returns to the square it was taken from and leaves the
    /// tally, a castled rook returns to its corner unmoved, and the turn
    /// passes back. A no-op when the history is empty.
    pub fn undo_last_move(&mut self)
        requires
            old(self).wf(),
            rules::undo_ok(old(self)@),
        ensures
            final(self).wf(),
            final(self)@ == rules::undo_view(old(self)@),
    {
        let ghost b = old(self)@;
        if self.moves.len() == 0 {
            return;
        }
        proof {
            assert(rules::record_wf(b.moves[b.moves.len() - 1]));
        }
        let lm = self.moves.pop().unwrap();
        proof {
            assert(self.moves@ =~= b.moves.drop_last());
        }
        let x1 = lm.origin_x;
        let y1 = lm.origin_y;
        let x2 = lm.dest_x;
        let y2 = lm.dest_y;
        let mut piece = self.piece_on(x2, y2).unwrap();
        let is_castle = piece.piece_type == PieceType::King && y1 == y2 && (x1 + 2 == x2 || x2 + 2
            == x1);
        if lm.first_move {
            piece.unmark_moved();
        }
        if let Some(piece2) = lm.capture {
            match piece.color {
                Color::White => self.captured_by_white.dec(piece2.piece_type),
                Color::Black => self.captured_by_black.dec(piece2.piece_type),
            }
            self.grid_clear(x2, y2);
            if lm.en_passant {
                self.grid_put(x2, y1, piece2);
            } else {
                self.grid_put(x2, y2, piece2);
            }
        } else if is_castle {
            let rfx = if x1 < x2 {
                x2 - 1
            } else {
                x2 + 1
            };
            let mut rook = self.piece_on(rfx, y2).unwrap();
            rook.unmark_moved();
            let rtx: u8 = if x1 < x2 {
                7
            } else {
                0
            };
            self.grid_clear(x2, y2);
            self.grid_clear(rfx, y2);
            self.grid_put(rtx, y1, rook);
        } else {
            self.grid_clear(x2, y2);
        }
        self.grid_put(x1, y1, piece);
        self.toggle_turn();
        proof {
            assert(self@ =~= rules::undo_view(b));
            rules::lemma_undo_preserves_wf(b);
        }
    }
}

/// Board equality: same occupancy (pieces with their has-moved flags and the
/// squares' own colors), same side to move, same history, same tallies.
impl PartialEq for Board {
    fn eq(&self, other: &Board) -> (r: bool) {
        if self.turn_color != other.turn_color {
            return false;
        }
        if self.captured_by_white != other.captured_by_white {
            return false;
        }
        if self.captured_by_black != other.captured_by_black {
            return false;
        }
        if self.spaces.len() != other.spaces.len() {
            return false;
        }
        let mut i: usize = 0;
        while i < self.spaces.len()
            invariant
                self.spaces@.len() == other.spaces@.len(),
                i <= self.spaces@.len(),
                forall|j: int| 0 <= j < i ==> self.spaces@[j] == other.spaces@[j],
            decreases self.spaces@.len() - i,
        {
            if self.spaces[i] != other.spaces[i] {
                return false;
            }
            i = i + 1;
        }
        if self.moves.len() != other.moves.len() {
            return false;
        }
        let mut k: usize = 0;
        while k < self.moves.len()
            invariant
                self.moves@.len() == other.moves@.len(),
                k <= self.moves@.len(),
                forall|j: int| 0 <= j < k ==> self.moves@[j] == other.moves@[j],
            decreases self.moves@.len() - k,
        {
            if self.moves[k] != other.moves[k] {
                return false;
            }
            k = k + 1;
        }
        proof {
            assert(self.spaces@ =~= other.spaces@);
            assert(self.moves@ =~= other.moves@);
            assert(self@ =~= other@);
        }
        true
    }
}

impl vstd::std_specs::cmp::PartialEqSpecImpl for Board {
    open spec fn obeys_eq_spec() -> bool {
        true
    }

    open spec fn eq_spec(&self, other: &Board) -> bool {
        self@ == other@
    }
}

/// The default board is the standard opening position.
impl Default for Board {
    fn default() -> (r: Self)
        ensures
            r.wf(),
            r@.grid == rules::initial_grid(),
            r@.turn == Color::White,
            r@.moves == Seq::<MoveRecord>::empty(),
            r@.captured_by_white == CaptureTally::empty(),
            r@.captured_by_black == CaptureTally::empty(),
    {
        Board::new()
    }
}

} // verus!
