//! The mathematical model of the game: an abstract board state and, over it,
//! every chess rule the engine implements. The executable `Board` type's
//! contracts are all stated in terms of the functions here.
//!
//! Squares are addressed by file `x` (0..8) and rank `y` (0..8); rank 0 is
//! White's home rank. The grid is modelled as a sequence of 64 spaces in
//! rank-major order, so square `(x, y)` sits at index `y * 8 + x`.

use vstd::prelude::*;
use crate::color::Color;
use crate::piece::{Piece, PieceType};
use crate::space::Space;
use crate::move_record::MoveRecord;
use crate::tally::CaptureTally;

verus! {

/// The abstract state of a whole game: the 64 squares, the side to move,
/// the move history, and the two capture tallies.
#[verifier::ext_equal]
pub struct BoardView {
    pub grid: Seq<Space>,
    pub turn: Color,
    pub moves: Seq<MoveRecord>,
    pub captured_by_white: CaptureTally,
    pub captured_by_black: CaptureTally,
}

/// Whether `(x, y)` lies on the board.
pub open spec fn in_bounds(x: u8, y: u8) -> bool {
    x < 8 && y < 8
}

/// The flat grid index of square `(x, y)`.
pub open spec fn idx(x: int, y: int) -> int {
    y * 8 + x
}

/// The fixed checkerboard color of square `(x, y)`.
pub open spec fn square_color(x: int, y: int) -> Color {
    if (x + y) % 2 == 0 {
        Color::Black
    } else {
        Color::White
    }
}

/// The occupant of square `(x, y)`.
pub open spec fn piece_at(b: BoardView, x: int, y: int) -> Option<Piece> {
    b.grid[idx(x, y)].piece
}

/// The grid with square `(x, y)` emptied.
pub open spec fn clear_sq(g: Seq<Space>, x: u8, y: u8) -> Seq<Space> {
    g.update(idx(x as int, y as int), Space { color: g[idx(x as int, y as int)].color, piece: None })
}

/// The grid with piece `p` placed on square `(x, y)`.
pub open spec fn put_sq(g: Seq<Space>, x: u8, y: u8, p: Piece) -> Seq<Space> {
    g.update(
        idx(x as int, y as int),
        Space { color: g[idx(x as int, y as int)].color, piece: Some(p) },
    )
}

/// The rank a color's king and rooks start on.
pub open spec fn home_rank(c: Color) -> u8 {
    match c {
        Color::White => 0,
        Color::Black => 7,
    }
}

// ---------------------------------------------------------------------------
// Counting pieces and captures (used by the well-formedness invariant).

/// How many squares of the grid are occupied.
pub open spec fn occupied_count(g: Seq<Space>) -> int
    decreases g.len(),
{
    if g.len() == 0 {
        0
    } else {
        occupied_count(g.drop_last()) + if g.last().piece is Some {
            1int
        } else {
            0int
        }
    }
}

/// How many records of the history still own a captured piece.
pub open spec fn capture_count(ms: Seq<MoveRecord>) -> int
    decreases ms.len(),
{
    if ms.len() == 0 {
        0
    } else {
        capture_count(ms.drop_last()) + if ms.last().capture is Some {
            1int
        } else {
            0int
        }
    }
}

/// How many records of the history own a captured piece of type `t`.
pub open spec fn captures_of_type(ms: Seq<MoveRecord>, t: PieceType) -> int
    decreases ms.len(),
{
    if ms.len() == 0 {
        0
    } else {
        captures_of_type(ms.drop_last(), t) + if ms.last().capture matches Some(p)
            && p.piece_type == t {
            1int
        } else {
            0int
        }
    }
}

/// A move record's coordinates all lie on the board.
pub open spec fn record_wf(r: MoveRecord) -> bool {
    r.origin_x < 8 && r.origin_y < 8 && r.dest_x < 8 && r.dest_y < 8
}

/// The capture tally of the given color.
pub open spec fn tally_of(b: BoardView, c: Color) -> CaptureTally {
    match c {
        Color::White => b.captured_by_white,
        Color::Black => b.captured_by_black,
    }
}

/// Well-formedness of a board state: 64 squares whose own colors follow the
/// checkerboard pattern, history coordinates on the board, tallies that
/// account exactly for the captures the history owns, and conservation of
/// pieces (a piece is on the board or owned by a capture record, and a board
/// starts with at most 64).
pub open spec fn wf(b: BoardView) -> bool {
    &&& b.grid.len() == 64
    &&& forall|i: int|
        0 <= i < 64 ==> (#[trigger] b.grid[i]).color == square_color(i % 8, i / 8)
    &&& forall|i: int| 0 <= i < b.moves.len() ==> record_wf(#[trigger] b.moves[i])
    &&& forall|t: PieceType|
        #[trigger] b.captured_by_white.spec_count(t) + b.captured_by_black.spec_count(t)
            == captures_of_type(b.moves, t)
    &&& occupied_count(b.grid) + capture_count(b.moves) <= 64
}

// ---------------------------------------------------------------------------
// Per-piece-type move legality. Each function assumes a piece of the fitting
// type stands on the origin square and is a pure function of the board state.

/// Whether a piece of color `c` occupies `(x, y)`.
pub open spec fn color_at(b: BoardView, c: Color, x: int, y: int) -> bool {
    piece_at(b, x, y) matches Some(q) && q.color == c
}

/// Legality of a pawn move from `(x1, y1)` to `(x2, y2)`: one step straight
/// forward into an empty square; two steps forward from an unmoved pawn
/// through and into empty squares; or one step diagonally forward onto an
/// opponent's piece.
pub open spec fn pawn_ok(b: BoardView, x1: u8, y1: u8, x2: u8, y2: u8) -> bool {
    let p = piece_at(b, x1 as int, y1 as int).unwrap();
    let q = piece_at(b, x2 as int, y2 as int);
    match p.color {
        Color::White => (!p.has_moved && y1 + 2 == y2 && x1 == x2 && q is None
            && piece_at(b, x1 as int, y1 + 1) is None) || (y1 + 1 == y2 && ((x1 == x2
            && q is None) || ((x1 + 1 == x2 || x2 + 1 == x1)
            && color_at(b, Color::Black, x2 as int, y2 as int)))),
        Color::Black => (!p.has_moved && y2 + 2 == y1 && x1 == x2 && q is None
            && piece_at(b, x1 as int, y1 - 1) is None) || (y2 + 1 == y1 && ((x1 == x2
            && q is None) || ((x1 + 1 == x2 || x2 + 1 == x1)
            && color_at(b, Color::White, x2 as int, y2 as int)))),
    }
}

/// Every square strictly between origin and destination, along a rank or a
/// file, is empty.
pub open spec fn rook_clear(b: BoardView, x1: u8, y1: u8, x2: u8, y2: u8) -> bool {
    if x1 == x2 {
        if y1 < y2 {
            forall|i: int| y1 < i < y2 ==> piece_at(b, x1 as int, i) is None
        } else {
            forall|i: int| y2 < i < y1 ==> piece_at(b, x1 as int, i) is None
        }
    } else {
        if x1 < x2 {
            forall|i: int| x1 < i < x2 ==> piece_at(b, i, y1 as int) is None
        } else {
            forall|i: int| x2 < i < x1 ==> piece_at(b, i, y1 as int) is None
        }
    }
}

/// Legality of a rook move: along one rank or one file, destination not held
/// by the mover's own color, nothing in between.
pub open spec fn rook_ok(b: BoardView, x1: u8, y1: u8, x2: u8, y2: u8) -> bool {
    let p = piece_at(b, x1 as int, y1 as int).unwrap();
    &&& !color_at(b, p.color, x2 as int, y2 as int)
    &&& (x1 == x2 || y1 == y2)
    &&& rook_clear(b, x1, y1, x2, y2)
}

/// Whether the square `i` diagonal steps from `(x1, y1)`, in the direction
/// given by the unit steps `sx` and `sy`, is empty.
pub open spec fn diag_empty_at(b: BoardView, x1: u8, y1: u8, sx: int, sy: int, i: int) -> bool {
    piece_at(b, x1 + sx * i, y1 + sy * i) is None
}

/// Every square strictly between origin and destination, along the diagonal,
/// is empty.
pub open spec fn bishop_clear(b: BoardView, x1: u8, y1: u8, x2: u8, y2: u8) -> bool {
    if x1 < x2 {
        if y1 < y2 {
            forall|i: int| 0 < i < x2 - x1 ==> #[trigger] diag_empty_at(b, x1, y1, 1, 1, i)
        } else {
            forall|i: int| 0 < i < x2 - x1 ==> #[trigger] diag_empty_at(b, x1, y1, 1, -1, i)
        }
    } else {
        if y1 < y2 {
            forall|i: int| 0 < i < x1 - x2 ==> #[trigger] diag_empty_at(b, x1, y1, -1, 1, i)
        } else {
            forall|i: int| 0 < i < x1 - x2 ==> #[trigger] diag_empty_at(b, x1, y1, -1, -1, i)
        }
    }
}

/// Legality of a bishop move: a pure diagonal, destination not held by the
/// mover's own color, nothing in between.
pub open spec fn bishop_ok(b: BoardView, x1: u8, y1: u8, x2: u8, y2: u8) -> bool {
    let p = piece_at(b, x1 as int, y1 as int).unwrap();
    let dx = if x1 < x2 { x2 - x1 } else { x1 - x2 };
    let dy = if y1 < y2 { y2 - y1 } else { y1 - y2 };
    &&& !color_at(b, p.color, x2 as int, y2 as int)
    &&& dx == dy
    &&& bishop_clear(b, x1, y1, x2, y2)
}

/// Legality of a queen move: rook-legal or bishop-legal.
pub open spec fn queen_ok(b: BoardView, x1: u8, y1: u8, x2: u8, y2: u8) -> bool {
    rook_ok(b, x1, y1, x2, y2) || bishop_ok(b, x1, y1, x2, y2)
}

/// Legality of a knight move: an (1, 2) or (2, 1) jump, destination not held
/// by the mover's own color. Knights are not blocked.
pub open spec fn knight_ok(b: BoardView, x1: u8, y1: u8, x2: u8, y2: u8) -> bool {
    let p = piece_at(b, x1 as int, y1 as int).unwrap();
    let dx = if x1 < x2 { x2 - x1 } else { x1 - x2 };
    let dy = if y1 < y2 { y2 - y1 } else { y1 - y2 };
    &&& !color_at(b, p.color, x2 as int, y2 as int)
    &&& ((dx == 2 && dy == 1) || (dx == 1 && dy == 2))
}

/// The geometric part of a king move: one step in any direction, destination
/// not held by the mover's own color. This is also the king's attack rule:
/// when asking whether a king attacks a square, the answer does not recurse
/// into whether that square is itself defended.
pub open spec fn king_geom_ok(b: BoardView, x1: u8, y1: u8, x2: u8, y2: u8) -> bool {
    let p = piece_at(b, x1 as int, y1 as int).unwrap();
    let dx = if x1 < x2 { x2 - x1 } else { x1 - x2 };
    let dy = if y1 < y2 { y2 - y1 } else { y1 - y2 };
    &&& !color_at(b, p.color, x2 as int, y2 as int)
    &&& dx <= 1 && dy <= 1
}

/// Legality of a king move: geometric legality, and the destination square
/// is not attacked by the opponent on the current board. (A discovered check
/// that this current-board test misses is caught by the post-commit check
/// and rollback in `move_piece`.)
pub open spec fn king_ok(b: BoardView, x1: u8, y1: u8, x2: u8, y2: u8) -> bool {
    let p = piece_at(b, x1 as int, y1 as int).unwrap();
    &&& king_geom_ok(b, x1, y1, x2, y2)
    &&& !attacked(b, x2, y2, p.color)
}

/// Whether the piece on `(x0, y0)` attacks square `(x, y)`: its own move
/// rule, taken geometrically (for the king, without the defended-square
/// test).
pub open spec fn attacks(b: BoardView, x0: u8, y0: u8, x: u8, y: u8) -> bool {
    match piece_at(b, x0 as int, y0 as int).unwrap().piece_type {
        PieceType::Pawn => pawn_ok(b, x0, y0, x, y),
        PieceType::Rook => rook_ok(b, x0, y0, x, y),
        PieceType::Bishop => bishop_ok(b, x0, y0, x, y),
        PieceType::Queen => queen_ok(b, x0, y0, x, y),
        PieceType::King => king_geom_ok(b, x0, y0, x, y),
        PieceType::Knight => knight_ok(b, x0, y0, x, y),
    }
}

/// Whether the piece on `(x0, y0)`, an opponent of color `c` standing on a
/// square other than `(x, y)` itself, attacks `(x, y)`.
pub open spec fn attacker_at(b: BoardView, x0: u8, y0: u8, x: u8, y: u8, c: Color) -> bool {
    &&& !(x0 == x && y0 == y)
    &&& piece_at(b, x0 as int, y0 as int) matches Some(p) && p.color != c
    &&& attacks(b, x0, y0, x, y)
}

/// Whether any piece opposing color `c` attacks square `(x, y)`. A purely
/// geometric, blocking-aware test on the current occupancy.
pub open spec fn attacked(b: BoardView, x: u8, y: u8, c: Color) -> bool {
    exists|x0: u8, y0: u8| x0 < 8 && y0 < 8 && #[trigger] attacker_at(b, x0, y0, x, y, c)
}

// ---------------------------------------------------------------------------
// Check detection.

/// Whether square index `i` holds the king of color `c`.
pub open spec fn is_king_at(g: Seq<Space>, c: Color, i: int) -> bool {
    g[i].piece matches Some(p) && p.piece_type == PieceType::King && p.color == c
}

/// A king of color `c` stands somewhere on the board.
pub open spec fn has_king(b: BoardView, c: Color) -> bool {
    exists|i: int| 0 <= i < 64 && is_king_at(b.grid, c, i)
}

/// The first square index, in scan order, holding the king of color `c`
/// (64 when there is none).
pub open spec fn first_king_from(g: Seq<Space>, c: Color, i: int) -> int
    decreases 64 - i,
{
    if i < 0 || i >= 64 {
        64
    } else if is_king_at(g, c, i) {
        i
    } else {
        first_king_from(g, c, i + 1)
    }
}

/// Whether color `c` is in check: its king's square is attacked by the
/// opponent. Meaningful only when a king of color `c` is on the board.
pub open spec fn in_check(b: BoardView, c: Color) -> bool {
    let i = first_king_from(b.grid, c, 0);
    attacked(b, (i % 8) as u8, (i / 8) as u8, c)
}

// ---------------------------------------------------------------------------
// The three commit paths of a move: en passant, castling, and the plain
// path, each as a trigger predicate and the exact state it produces.

/// The cheap checks every move starts with: origin and destination differ,
/// a piece stands on the origin, and it belongs to the side to move.
pub open spec fn basic_ok(b: BoardView, x1: u8, y1: u8, x2: u8, y2: u8) -> bool {
    &&& !(x1 == x2 && y1 == y2)
    &&& piece_at(b, x1 as int, y1 as int) matches Some(p) && p.color == b.turn
}

/// The en passant trigger: the side to move steps a pawn diagonally forward
/// into an empty square on the capture rank, and the immediately preceding
/// move was an enemy pawn's two-rank advance ending beside the moving pawn,
/// on the file of the destination — where that pawn still stands.
pub open spec fn ep_trigger(b: BoardView, x1: u8, y1: u8, x2: u8, y2: u8) -> bool {
    let p = piece_at(b, x1 as int, y1 as int).unwrap();
    &&& p.piece_type == PieceType::Pawn
    &&& piece_at(b, x2 as int, y2 as int) is None
    &&& ((b.turn == Color::White && y1 == 4 && y2 == 5) || (b.turn == Color::Black && y1 == 3
        && y2 == 2))
    &&& (x1 + 1 == x2 || x2 + 1 == x1)
    &&& b.moves.len() > 0
    &&& {
        let lm = b.moves.last();
        &&& lm.piece_type == PieceType::Pawn
        &&& lm.origin_x == lm.dest_x
        &&& (lm.origin_y + 2 == lm.dest_y || lm.dest_y + 2 == lm.origin_y)
        &&& lm.dest_x == x2
        &&& lm.dest_y == y1
    }
    &&& (piece_at(b, x2 as int, y1 as int) matches Some(v) && v.piece_type == PieceType::Pawn
        && v.color != b.turn)
}

/// The state after committing an en passant capture: the moving pawn leaves
/// the origin, the passed pawn at `(x2, y1)` is captured and tallied, the
/// moving pawn (now marked moved) lands on the destination, a record owning
/// the captured pawn is pushed, and the turn passes.
pub open spec fn ep_applied(b: BoardView, x1: u8, y1: u8, x2: u8, y2: u8) -> BoardView {
    let p = piece_at(b, x1 as int, y1 as int).unwrap();
    let victim = piece_at(b, x2 as int, y1 as int).unwrap();
    BoardView {
        grid: put_sq(
            clear_sq(clear_sq(b.grid, x1, y1), x2, y1),
            x2,
            y2,
            Piece { has_moved: true, ..p },
        ),
        turn: b.turn.spec_other(),
        moves: b.moves.push(
            MoveRecord {
                origin_x: x1,
                origin_y: y1,
                dest_x: x2,
                dest_y: y2,
                capture: Some(victim),
                piece_type: p.piece_type,
                first_move: !p.has_moved,
                en_passant: true,
            },
        ),
        captured_by_white: if p.color == Color::White {
            b.captured_by_white.spec_inc(victim.piece_type)
        } else {
            b.captured_by_white
        },
        captured_by_black: if p.color == Color::Black {
            b.captured_by_black.spec_inc(victim.piece_type)
        } else {
            b.captured_by_black
        },
    }
}

/// The corner file of the rook a castling king moves toward.
pub open spec fn castle_corner_x(x1: u8, x2: u8) -> u8 {
    if x1 < x2 {
        7
    } else {
        0
    }
}

/// The file the castling rook ends on: the square the king passed through.
pub open spec fn castle_rook_dest_x(x1: u8, x2: u8) -> u8 {
    if x1 < x2 {
        (x2 - 1) as u8
    } else {
        (x2 + 1) as u8
    }
}

/// The castling trigger: an unmoved king moves exactly two files along its
/// home rank into an empty square, toward an unmoved rook of its own color
/// standing on the corner of that rank.
pub open spec fn castle_shape(b: BoardView, x1: u8, y1: u8, x2: u8, y2: u8) -> bool {
    let p = piece_at(b, x1 as int, y1 as int).unwrap();
    &&& p.piece_type == PieceType::King
    &&& !p.has_moved
    &&& (x1 + 2 == x2 || x2 + 2 == x1)
    &&& piece_at(b, x2 as int, y2 as int) is None
    &&& y1 == home_rank(p.color)
    &&& y2 == home_rank(p.color)
    &&& (piece_at(b, castle_corner_x(x1, x2) as int, y1 as int) matches Some(r)
        && r.piece_type == PieceType::Rook && !r.has_moved && r.color == p.color)
}

/// The conditions that let a triggered castle proceed: no piece between king
/// and rook, and the king's start square, the square it passes through, and
/// its destination are all free of attack.
pub open spec fn castle_clear(b: BoardView, x1: u8, y1: u8, x2: u8, y2: u8) -> bool {
    let c = piece_at(b, x1 as int, y1 as int).unwrap().color;
    &&& !attacked(b, x1, y1, c)
    &&& !attacked(b, x2, y2, c)
    &&& if x1 < x2 {
        &&& !attacked(b, (x1 + 1) as u8, y1, c)
        &&& forall|i: int| x1 < i < 7 ==> piece_at(b, i, y1 as int) is None
    } else {
        &&& !attacked(b, (x1 - 1) as u8, y1, c)
        &&& forall|i: int| 0 < i < x1 ==> piece_at(b, i, y1 as int) is None
    }
}

/// The state after committing a castle: king and rook move together, both
/// marked moved; one record for the king's move is pushed, and the turn
/// passes. The rook's move is not independently recorded — undo recognizes
/// the two-file king move.
pub open spec fn castle_applied(b: BoardView, x1: u8, y1: u8, x2: u8, y2: u8) -> BoardView {
    let p = piece_at(b, x1 as int, y1 as int).unwrap();
    let cx = castle_corner_x(x1, x2);
    let rook = piece_at(b, cx as int, y1 as int).unwrap();
    BoardView {
        grid: put_sq(
            put_sq(
                clear_sq(clear_sq(b.grid, x1, y1), cx, y1),
                x2,
                y2,
                Piece { has_moved: true, ..p },
            ),
            castle_rook_dest_x(x1, x2),
            y1,
            Piece { has_moved: true, ..rook },
        ),
        turn: b.turn.spec_other(),
        moves: b.moves.push(
            MoveRecord {
                origin_x: x1,
                origin_y: y1,
                dest_x: x2,
                dest_y: y2,
                capture: None,
                piece_type: p.piece_type,
                first_move: !p.has_moved,
                en_passant: false,
            },
        ),
        captured_by_white: b.captured_by_white,
        captured_by_black: b.captured_by_black,
    }
}

/// Per-type legality of the moving piece, dispatched on its type.
pub open spec fn type_ok(b: BoardView, x1: u8, y1: u8, x2: u8, y2: u8) -> bool {
    match piece_at(b, x1 as int, y1 as int).unwrap().piece_type {
        PieceType::Pawn => pawn_ok(b, x1, y1, x2, y2),
        PieceType::Rook => rook_ok(b, x1, y1, x2, y2),
        PieceType::Bishop => bishop_ok(b, x1, y1, x2, y2),
        PieceType::Queen => queen_ok(b, x1, y1, x2, y2),
        PieceType::King => king_ok(b, x1, y1, x2, y2),
        PieceType::Knight => knight_ok(b, x1, y1, x2, y2),
    }
}

/// The state after committing a plain move: the mover (marked moved) goes
/// from origin to destination, any piece on the destination is captured and
/// tallied, a record is pushed, and the turn passes.
pub open spec fn normal_applied(b: BoardView, x1: u8, y1: u8, x2: u8, y2: u8) -> BoardView {
    let p = piece_at(b, x1 as int, y1 as int).unwrap();
    let q = piece_at(b, x2 as int, y2 as int);
    BoardView {
        grid: put_sq(clear_sq(b.grid, x1, y1), x2, y2, Piece { has_moved: true, ..p }),
        turn: b.turn.spec_other(),
        moves: b.moves.push(
            MoveRecord {
                origin_x: x1,
                origin_y: y1,
                dest_x: x2,
                dest_y: y2,
                capture: q,
                piece_type: p.piece_type,
                first_move: !p.has_moved,
                en_passant: false,
            },
        ),
        captured_by_white: if q is Some && p.color == Color::White {
            b.captured_by_white.spec_inc(q.unwrap().piece_type)
        } else {
            b.captured_by_white
        },
        captured_by_black: if q is Some && p.color == Color::Black {
            b.captured_by_black.spec_inc(q.unwrap().piece_type)
        } else {
            b.captured_by_black
        },
    }
}

/// Whether the move passes every check that precedes the commit, so that
/// the board is (at least tentatively) mutated.
pub open spec fn commits(b: BoardView, x1: u8, y1: u8, x2: u8, y2: u8) -> bool {
    &&& basic_ok(b, x1, y1, x2, y2)
    &&& if ep_trigger(b, x1, y1, x2, y2) {
        true
    } else if castle_shape(b, x1, y1, x2, y2) {
        castle_clear(b, x1, y1, x2, y2)
    } else {
        type_ok(b, x1, y1, x2, y2)
    }
}

/// The state a committing move produces (meaningful under `commits`).
pub open spec fn committed(b: BoardView, x1: u8, y1: u8, x2: u8, y2: u8) -> BoardView {
    if ep_trigger(b, x1, y1, x2, y2) {
        ep_applied(b, x1, y1, x2, y2)
    } else if castle_shape(b, x1, y1, x2, y2) {
        castle_applied(b, x1, y1, x2, y2)
    } else {
        normal_applied(b, x1, y1, x2, y2)
    }
}

/// Whether `move_piece` accepts the move: it commits, and the committed
/// state does not leave the mover's own king in check.
pub open spec fn move_ok(b: BoardView, x1: u8, y1: u8, x2: u8, y2: u8) -> bool {
    &&& commits(b, x1, y1, x2, y2)
    &&& !in_check(committed(b, x1, y1, x2, y2), b.turn)
}

/// The state `move_piece` leaves behind: the committed state on acceptance,
/// the unchanged board on rejection.
pub open spec fn move_result(b: BoardView, x1: u8, y1: u8, x2: u8, y2: u8) -> BoardView {
    if move_ok(b, x1, y1, x2, y2) {
        committed(b, x1, y1, x2, y2)
    } else {
        b
    }
}

// ---------------------------------------------------------------------------
// Undo.

/// Whether a record describes a castle: the piece it moved (still standing
/// on the record's destination) is a king that moved two files along a rank,
/// capturing nothing.
pub open spec fn castle_record(lm: MoveRecord, p0: Piece) -> bool {
    &&& p0.piece_type == PieceType::King
    &&& lm.origin_y == lm.dest_y
    &&& (lm.origin_x + 2 == lm.dest_x || lm.dest_x + 2 == lm.origin_x)
    &&& lm.capture is None
}

/// The file the castled rook stands on when the king's move is undone.
pub open spec fn undo_rook_from_x(lm: MoveRecord) -> u8 {
    if lm.origin_x < lm.dest_x {
        (lm.dest_x - 1) as u8
    } else {
        (lm.dest_x + 1) as u8
    }
}

/// The corner file the castled rook returns to.
pub open spec fn undo_rook_to_x(lm: MoveRecord) -> u8 {
    if lm.origin_x < lm.dest_x {
        7
    } else {
        0
    }
}

/// What `undo_last_move` dereferences: with a non-empty history, a piece
/// stands on the last record's destination; if that record owns a capture,
/// the capturing side's tally has an entry for the captured type; and after
/// a castle, the rook stands beside the king.
pub open spec fn undo_ok(b: BoardView) -> bool {
    b.moves.len() > 0 ==> {
        let lm = b.moves.last();
        let p0 = piece_at(b, lm.dest_x as int, lm.dest_y as int);
        &&& p0 is Some
        &&& (lm.capture matches Some(cap) ==> tally_of(b, p0.unwrap().color).spec_count(
            cap.piece_type,
        ) >= 1)
        &&& (castle_record(lm, p0.unwrap()) ==> piece_at(
            b,
            undo_rook_from_x(lm) as int,
            lm.dest_y as int,
        ) is Some)
    }
}

/// The state `undo_last_move` produces: the last record is popped, the moved
/// piece returns to its origin (its moved flag cleared when the record was
/// its first move), a captured piece returns to the square it was taken from
/// and its tally entry is decremented, a castled rook returns to its corner
/// with its moved flag cleared, and the turn passes back. With an empty
/// history, the board is unchanged.
pub open spec fn undo_view(b: BoardView) -> BoardView {
    if b.moves.len() == 0 {
        b
    } else {
        let lm = b.moves.last();
        let p0 = piece_at(b, lm.dest_x as int, lm.dest_y as int).unwrap();
        let p = if lm.first_move {
            Piece { has_moved: false, ..p0 }
        } else {
            p0
        };
        let ms = b.moves.drop_last();
        let t = b.turn.spec_other();
        let g0 = clear_sq(b.grid, lm.dest_x, lm.dest_y);
        if lm.capture is Some {
            let cap = lm.capture.unwrap();
            let g1 = if lm.en_passant {
                put_sq(g0, lm.dest_x, lm.origin_y, cap)
            } else {
                put_sq(g0, lm.dest_x, lm.dest_y, cap)
            };
            BoardView {
                grid: put_sq(g1, lm.origin_x, lm.origin_y, p),
                turn: t,
                moves: ms,
                captured_by_white: if p0.color == Color::White {
                    b.captured_by_white.spec_dec(cap.piece_type)
                } else {
                    b.captured_by_white
                },
                captured_by_black: if p0.color == Color::Black {
                    b.captured_by_black.spec_dec(cap.piece_type)
                } else {
                    b.captured_by_black
                },
            }
        } else if castle_record(lm, p0) {
            let rook0 = piece_at(b, undo_rook_from_x(lm) as int, lm.dest_y as int).unwrap();
            let g1 = put_sq(
                clear_sq(g0, undo_rook_from_x(lm), lm.dest_y),
                undo_rook_to_x(lm),
                lm.origin_y,
                Piece { has_moved: false, ..rook0 },
            );
            BoardView {
                grid: put_sq(g1, lm.origin_x, lm.origin_y, p),
                turn: t,
                moves: ms,
                captured_by_white: b.captured_by_white,
                captured_by_black: b.captured_by_black,
            }
        } else {
            BoardView {
                grid: put_sq(g0, lm.origin_x, lm.origin_y, p),
                turn: t,
                moves: ms,
                captured_by_white: b.captured_by_white,
                captured_by_black: b.captured_by_black,
            }
        }
    }
}

// ---------------------------------------------------------------------------
// Checkmate.

/// No destination rescues the piece on `(x1, y1)`: every move from there is
/// rejected.
pub open spec fn no_escape_from(b: BoardView, x1: u8, y1: u8) -> bool {
    forall|x2: u8, y2: u8| x2 < 8 && y2 < 8 ==> !move_ok(b, x1, y1, x2, y2)
}

/// No piece of color `c` has any accepted move.
pub open spec fn no_escape(b: BoardView, c: Color) -> bool {
    forall|x1: u8, y1: u8|
        x1 < 8 && y1 < 8 && #[trigger] color_at(b, c, x1 as int, y1 as int)
            ==> no_escape_from(b, x1, y1)
}

/// Checkmate: the color is in check and none of its pieces has a move that
/// `move_piece` would accept.
pub open spec fn checkmate(b: BoardView, c: Color) -> bool {
    in_check(b, c) && no_escape(b, c)
}

// ---------------------------------------------------------------------------
// Board construction.

/// The back-rank piece type on file `x` of the standard opening position.
pub open spec fn back_rank_type(x: int) -> PieceType {
    if x == 0 || x == 7 {
        PieceType::Rook
    } else if x == 1 || x == 6 {
        PieceType::Knight
    } else if x == 2 || x == 5 {
        PieceType::Bishop
    } else if x == 3 {
        PieceType::Queen
    } else {
        PieceType::King
    }
}

/// The occupant of square `(x, y)` in the standard opening position.
pub open spec fn initial_piece(x: int, y: int) -> Option<Piece> {
    if y == 0 {
        Some(Piece { color: Color::White, has_moved: false, piece_type: back_rank_type(x) })
    } else if y == 1 {
        Some(Piece { color: Color::White, has_moved: false, piece_type: PieceType::Pawn })
    } else if y == 6 {
        Some(Piece { color: Color::Black, has_moved: false, piece_type: PieceType::Pawn })
    } else if y == 7 {
        Some(Piece { color: Color::Black, has_moved: false, piece_type: back_rank_type(x) })
    } else {
        None
    }
}

/// The grid of the standard opening position.
pub open spec fn initial_grid() -> Seq<Space> {
    Seq::new(64, |i: int| Space { color: square_color(i % 8, i / 8), piece: initial_piece(i % 8, i / 8) })
}

/// The empty grid.
pub open spec fn empty_grid() -> Seq<Space> {
    Seq::new(64, |i: int| Space { color: square_color(i % 8, i / 8), piece: None })
}

/// The grid after placing the given pieces, in order, on an existing grid.
pub open spec fn place_all(g: Seq<Space>, ps: Seq<(Piece, u8, u8)>) -> Seq<Space>
    decreases ps.len(),
{
    if ps.len() == 0 {
        g
    } else {
        put_sq(place_all(g, ps.drop_last()), ps.last().1, ps.last().2, ps.last().0)
    }
}

/// Whether `c` is a square of the textual board format: `_` for an empty
/// square, or a piece letter, uppercase for White and lowercase for Black.
pub open spec fn valid_piece_char(c: char) -> bool {
    c == '_' || c == 'K' || c == 'k' || c == 'Q' || c == 'q' || c == 'R' || c == 'r' || c == 'B'
        || c == 'b' || c == 'N' || c == 'n' || c == 'P' || c == 'p'
}

/// The occupant a square character of the textual board format denotes.
pub open spec fn char_piece(c: char) -> Option<Piece> {
    if c == 'K' {
        Some(Piece { color: Color::White, has_moved: false, piece_type: PieceType::King })
    } else if c == 'k' {
        Some(Piece { color: Color::Black, has_moved: false, piece_type: PieceType::King })
    } else if c == 'Q' {
        Some(Piece { color: Color::White, has_moved: false, piece_type: PieceType::Queen })
    } else if c == 'q' {
        Some(Piece { color: Color::Black, has_moved: false, piece_type: PieceType::Queen })
    } else if c == 'R' {
        Some(Piece { color: Color::White, has_moved: false, piece_type: PieceType::Rook })
    } else if c == 'r' {
        Some(Piece { color: Color::Black, has_moved: false, piece_type: PieceType::Rook })
    } else if c == 'B' {
        Some(Piece { color: Color::White, has_moved: false, piece_type: PieceType::Bishop })
    } else if c == 'b' {
        Some(Piece { color: Color::Black, has_moved: false, piece_type: PieceType::Bishop })
    } else if c == 'N' {
        Some(Piece { color: Color::White, has_moved: false, piece_type: PieceType::Knight })
    } else if c == 'n' {
        Some(Piece { color: Color::Black, has_moved: false, piece_type: PieceType::Knight })
    } else if c == 'P' {
        Some(Piece { color: Color::White, has_moved: false, piece_type: PieceType::Pawn })
    } else if c == 'p' {
        Some(Piece { color: Color::Black, has_moved: false, piece_type: PieceType::Pawn })
    } else {
        None
    }
}

/// The grid denoted by the textual board format: eight rank strings, rank 8
/// first, one character per square.
pub open spec fn parsed_grid(state: Seq<&str>) -> Seq<Space> {
    Seq::new(
        64,
        |i: int|
            Space {
                color: square_color(i % 8, i / 8),
                piece: char_piece(state[7 - i / 8]@[i % 8]),
            },
    )
}

// ---------------------------------------------------------------------------
// Counting lemmas for the well-formedness invariant.

/// An occupancy count is between zero and the grid length.
pub proof fn lemma_occ_bounds(g: Seq<Space>)
    ensures
        0 <= occupied_count(g) <= g.len(),
    decreases g.len(),
{
    if g.len() > 0 {
        lemma_occ_bounds(g.drop_last());
    }
}

/// How one square update moves the occupancy count.
pub proof fn lemma_occ_update(g: Seq<Space>, i: int, s: Space)
    requires
        0 <= i < g.len(),
    ensures
        occupied_count(g.update(i, s)) == occupied_count(g) - (if g[i].piece is Some {
            1int
        } else {
            0int
        }) + (if s.piece is Some {
            1int
        } else {
            0int
        }),
    decreases g.len(),
{
    let gu = g.update(i, s);
    if i == g.len() - 1 {
        assert(gu.drop_last() =~= g.drop_last());
        assert(gu.last() == s);
    } else {
        assert(gu.drop_last() =~= g.drop_last().update(i, s));
        assert(gu.last() == g.last());
        lemma_occ_update(g.drop_last(), i, s);
    }
}

/// How emptying one square moves the occupancy count.
pub proof fn lemma_occ_clear(g: Seq<Space>, x: u8, y: u8)
    requires
        g.len() == 64,
        x < 8,
        y < 8,
    ensures
        occupied_count(clear_sq(g, x, y)) == occupied_count(g) - (if g[idx(
            x as int,
            y as int,
        )].piece is Some {
            1int
        } else {
            0int
        }),
{
    let i = idx(x as int, y as int);
    lemma_occ_update(g, i, Space { color: g[i].color, piece: None });
}

/// How filling one square moves the occupancy count.
pub proof fn lemma_occ_put(g: Seq<Space>, x: u8, y: u8, p: Piece)
    requires
        g.len() == 64,
        x < 8,
        y < 8,
    ensures
        occupied_count(put_sq(g, x, y, p)) == occupied_count(g) - (if g[idx(
            x as int,
            y as int,
        )].piece is Some {
            1int
        } else {
            0int
        }) + 1,
{
    let i = idx(x as int, y as int);
    lemma_occ_update(g, i, Space { color: g[i].color, piece: Some(p) });
}

/// How popping the last record moves the capture counts.
pub proof fn lemma_caps_pop(ms: Seq<MoveRecord>)
    requires
        ms.len() > 0,
    ensures
        capture_count(ms.drop_last()) == capture_count(ms) - (if ms.last().capture is Some {
            1int
        } else {
            0int
        }),
        forall|t: PieceType|
            #[trigger] captures_of_type(ms.drop_last(), t) == captures_of_type(ms, t) - (
            if ms.last().capture matches Some(p) && p.piece_type == t {
                1int
            } else {
                0int
            }),
{
}

/// Emptying a square keeps the grid's length and checkerboard coloring.
pub proof fn lemma_colors_clear(g: Seq<Space>, x: u8, y: u8)
    requires
        g.len() == 64,
        x < 8,
        y < 8,
        forall|i: int| 0 <= i < 64 ==> (#[trigger] g[i]).color == square_color(i % 8, i / 8),
    ensures
        clear_sq(g, x, y).len() == 64,
        forall|i: int|
            0 <= i < 64 ==> (#[trigger] clear_sq(g, x, y)[i]).color == square_color(i % 8, i / 8),
{
}

/// Filling a square keeps the grid's length and checkerboard coloring.
pub proof fn lemma_colors_put(g: Seq<Space>, x: u8, y: u8, p: Piece)
    requires
        g.len() == 64,
        x < 8,
        y < 8,
        forall|i: int| 0 <= i < 64 ==> (#[trigger] g[i]).color == square_color(i % 8, i / 8),
    ensures
        put_sq(g, x, y, p).len() == 64,
        forall|i: int|
            0 <= i < 64 ==> (#[trigger] put_sq(g, x, y, p)[i]).color == square_color(i % 8, i / 8),
{
}

/// Capture counts are nonnegative, and the per-type count never exceeds the
/// total.
pub proof fn lemma_caps_bounds(ms: Seq<MoveRecord>, t: PieceType)
    ensures
        0 <= captures_of_type(ms, t) <= capture_count(ms),
    decreases ms.len(),
{
    if ms.len() > 0 {
        lemma_caps_bounds(ms.drop_last(), t);
    }
}

/// Undoing a move preserves well-formedness.
pub proof fn lemma_undo_preserves_wf(b: BoardView)
    requires
        wf(b),
        undo_ok(b),
    ensures
        wf(undo_view(b)),
{
    if b.moves.len() > 0 {
        let uv = undo_view(b);
        let lm = b.moves.last();
        let p0 = piece_at(b, lm.dest_x as int, lm.dest_y as int).unwrap();
        let p = if lm.first_move {
            Piece { has_moved: false, ..p0 }
        } else {
            p0
        };
        assert(record_wf(b.moves[b.moves.len() - 1]));
        lemma_caps_pop(b.moves);
        assert forall|i: int| 0 <= i < uv.moves.len() implies record_wf(#[trigger] uv.moves[i]) by {
            assert(uv.moves[i] == b.moves[i]);
        }
        let g0 = clear_sq(b.grid, lm.dest_x, lm.dest_y);
        lemma_colors_clear(b.grid, lm.dest_x, lm.dest_y);
        lemma_occ_clear(b.grid, lm.dest_x, lm.dest_y);
        if lm.capture is Some {
            let cap = lm.capture.unwrap();
            let g1 = if lm.en_passant {
                put_sq(g0, lm.dest_x, lm.origin_y, cap)
            } else {
                put_sq(g0, lm.dest_x, lm.dest_y, cap)
            };
            if lm.en_passant {
                lemma_colors_put(g0, lm.dest_x, lm.origin_y, cap);
                lemma_occ_put(g0, lm.dest_x, lm.origin_y, cap);
            } else {
                lemma_colors_put(g0, lm.dest_x, lm.dest_y, cap);
                lemma_occ_put(g0, lm.dest_x, lm.dest_y, cap);
            }
            lemma_colors_put(g1, lm.origin_x, lm.origin_y, p);
            lemma_occ_put(g1, lm.origin_x, lm.origin_y, p);
            assert forall|t: PieceType|
                #[trigger] uv.captured_by_white.spec_count(t) + uv.captured_by_black.spec_count(t)
                    == captures_of_type(uv.moves, t) by {
                assert(b.captured_by_white.spec_count(t) + b.captured_by_black.spec_count(t)
                    == captures_of_type(b.moves, t));
                assert(captures_of_type(b.moves.drop_last(), t) == captures_of_type(b.moves, t) - (
                if lm.capture matches Some(q) && q.piece_type == t {
                    1int
                } else {
                    0int
                }));
            }
        } else if castle_record(lm, p0) {
            let rfx = undo_rook_from_x(lm);
            let rtx = undo_rook_to_x(lm);
            let rook0 = piece_at(b, rfx as int, lm.dest_y as int).unwrap();
            let rook = Piece { has_moved: false, ..rook0 };
            let ga = clear_sq(g0, rfx, lm.dest_y);
            lemma_colors_clear(g0, rfx, lm.dest_y);
            lemma_occ_clear(g0, rfx, lm.dest_y);
            let gb = put_sq(ga, rtx, lm.origin_y, rook);
            lemma_colors_put(ga, rtx, lm.origin_y, rook);
            lemma_occ_put(ga, rtx, lm.origin_y, rook);
            lemma_colors_put(gb, lm.origin_x, lm.origin_y, p);
            lemma_occ_put(gb, lm.origin_x, lm.origin_y, p);
        } else {
            lemma_colors_put(g0, lm.origin_x, lm.origin_y, p);
            lemma_occ_put(g0, lm.origin_x, lm.origin_y, p);
        }
    }
}

/// Both capture tallies of a well-formed board stay small: the board cannot
/// have seen more captures than it has squares.
pub proof fn lemma_tally_small(b: BoardView, t: PieceType)
    requires
        wf(b),
    ensures
        b.captured_by_white.spec_count(t) <= 64,
        b.captured_by_black.spec_count(t) <= 64,
{
    lemma_caps_bounds(b.moves, t);
    lemma_occ_bounds(b.grid);
    assert(b.captured_by_white.spec_count(t) + b.captured_by_black.spec_count(t)
        == captures_of_type(b.moves, t));
}

/// Committing a move preserves well-formedness.
pub proof fn lemma_commit_preserves_wf(b: BoardView, x1: u8, y1: u8, x2: u8, y2: u8)
    requires
        wf(b),
        in_bounds(x1, y1),
        in_bounds(x2, y2),
        commits(b, x1, y1, x2, y2),
    ensures
        wf(committed(b, x1, y1, x2, y2)),
{
    let cv = committed(b, x1, y1, x2, y2);
    let p = piece_at(b, x1 as int, y1 as int).unwrap();
    let moved = Piece { has_moved: true, ..p };
    assert forall|i: int| 0 <= i < cv.moves.len() implies record_wf(#[trigger] cv.moves[i]) by {
        if i < b.moves.len() {
            assert(cv.moves[i] == b.moves[i]);
        } else {
            assert(cv.moves[i] == cv.moves.last());
        }
    }
    if ep_trigger(b, x1, y1, x2, y2) {
        let victim = piece_at(b, x2 as int, y1 as int).unwrap();
        let rec = MoveRecord {
            origin_x: x1,
            origin_y: y1,
            dest_x: x2,
            dest_y: y2,
            capture: Some(victim),
            piece_type: p.piece_type,
            first_move: !p.has_moved,
            en_passant: true,
        };
        assert(cv.moves == b.moves.push(rec));
        lemma_caps_push(b.moves, rec);
        let g1 = clear_sq(b.grid, x1, y1);
        let g2 = clear_sq(g1, x2, y1);
        lemma_colors_clear(b.grid, x1, y1);
        lemma_colors_clear(g1, x2, y1);
        lemma_colors_put(g2, x2, y2, moved);
        lemma_occ_clear(b.grid, x1, y1);
        lemma_occ_clear(g1, x2, y1);
        lemma_occ_put(g2, x2, y2, moved);
        assert forall|t: PieceType|
            #[trigger] cv.captured_by_white.spec_count(t) + cv.captured_by_black.spec_count(t)
                == captures_of_type(cv.moves, t) by {
            assert(b.captured_by_white.spec_count(t) + b.captured_by_black.spec_count(t)
                == captures_of_type(b.moves, t));
            assert(captures_of_type(cv.moves, t) == captures_of_type(b.moves, t) + (
            if rec.capture matches Some(q) && q.piece_type == t {
                1int
            } else {
                0int
            }));
            lemma_tally_small(b, t);
        }
    } else if castle_shape(b, x1, y1, x2, y2) {
        let cx = castle_corner_x(x1, x2);
        let rook = piece_at(b, cx as int, y1 as int).unwrap();
        let rec = MoveRecord {
            origin_x: x1,
            origin_y: y1,
            dest_x: x2,
            dest_y: y2,
            capture: None,
            piece_type: p.piece_type,
            first_move: !p.has_moved,
            en_passant: false,
        };
        assert(cv.moves == b.moves.push(rec));
        lemma_caps_push(b.moves, rec);
        let g1 = clear_sq(b.grid, x1, y1);
        let g2 = clear_sq(g1, cx, y1);
        let g3 = put_sq(g2, x2, y2, moved);
        lemma_colors_clear(b.grid, x1, y1);
        lemma_colors_clear(g1, cx, y1);
        lemma_colors_put(g2, x2, y2, moved);
        lemma_colors_put(g3, castle_rook_dest_x(x1, x2), y1, Piece { has_moved: true, ..rook });
        lemma_occ_clear(b.grid, x1, y1);
        lemma_occ_clear(g1, cx, y1);
        lemma_occ_put(g2, x2, y2, moved);
        lemma_occ_put(g3, castle_rook_dest_x(x1, x2), y1, Piece { has_moved: true, ..rook });
        assert forall|t: PieceType|
            #[trigger] cv.captured_by_white.spec_count(t) + cv.captured_by_black.spec_count(t)
                == captures_of_type(cv.moves, t) by {
            assert(b.captured_by_white.spec_count(t) + b.captured_by_black.spec_count(t)
                == captures_of_type(b.moves, t));
            assert(captures_of_type(cv.moves, t) == captures_of_type(b.moves, t));
        }
    } else {
        let q = piece_at(b, x2 as int, y2 as int);
        let rec = MoveRecord {
            origin_x: x1,
            origin_y: y1,
            dest_x: x2,
            dest_y: y2,
            capture: q,
            piece_type: p.piece_type,
            first_move: !p.has_moved,
            en_passant: false,
        };
        assert(cv.moves == b.moves.push(rec));
        lemma_caps_push(b.moves, rec);
        let g1 = clear_sq(b.grid, x1, y1);
        lemma_colors_clear(b.grid, x1, y1);
        lemma_colors_put(g1, x2, y2, moved);
        lemma_occ_clear(b.grid, x1, y1);
        lemma_occ_put(g1, x2, y2, moved);
        assert forall|t: PieceType|
            #[trigger] cv.captured_by_white.spec_count(t) + cv.captured_by_black.spec_count(t)
                == captures_of_type(cv.moves, t) by {
            assert(b.captured_by_white.spec_count(t) + b.captured_by_black.spec_count(t)
                == captures_of_type(b.moves, t));
            assert(captures_of_type(cv.moves, t) == captures_of_type(b.moves, t) + (
            if rec.capture matches Some(qq) && qq.piece_type == t {
                1int
            } else {
                0int
            }));
            lemma_tally_small(b, t);
        }
    }
}

/// A committing move never removes the mover's own king from the board.
pub proof fn lemma_commit_preserves_king(b: BoardView, x1: u8, y1: u8, x2: u8, y2: u8)
    requires
        wf(b),
        in_bounds(x1, y1),
        in_bounds(x2, y2),
        commits(b, x1, y1, x2, y2),
        has_king(b, b.turn),
    ensures
        has_king(committed(b, x1, y1, x2, y2), b.turn),
{
    let c = b.turn;
    let cv = committed(b, x1, y1, x2, y2);
    let p = piece_at(b, x1 as int, y1 as int).unwrap();
    let i = choose|i: int| 0 <= i < 64 && is_king_at(b.grid, c, i);
    if p.piece_type == PieceType::King {
        assert(is_king_at(cv.grid, c, idx(x2 as int, y2 as int)));
    } else {
        assert(i != idx(x1 as int, y1 as int));
        if ep_trigger(b, x1, y1, x2, y2) {
            assert(i != idx(x2 as int, y1 as int));
            assert(i != idx(x2 as int, y2 as int));
        } else {
            assert(i != idx(x2 as int, y2 as int));
        }
        assert(is_king_at(cv.grid, c, i));
    }
}

/// The round trip for an en passant commit.
#[verifier::rlimit(50)]
#[verifier::spinoff_prover]
proof fn lemma_ep_undo_roundtrip(b: BoardView, x1: u8, y1: u8, x2: u8, y2: u8)
    requires
        wf(b),
        in_bounds(x1, y1),
        in_bounds(x2, y2),
        basic_ok(b, x1, y1, x2, y2),
        ep_trigger(b, x1, y1, x2, y2),
    ensures
        undo_ok(ep_applied(b, x1, y1, x2, y2)),
        undo_view(ep_applied(b, x1, y1, x2, y2)) == b,
{
    let cv = ep_applied(b, x1, y1, x2, y2);
    let p = piece_at(b, x1 as int, y1 as int).unwrap();
    let moved = Piece { has_moved: true, ..p };
    let victim = piece_at(b, x2 as int, y1 as int).unwrap();
    assert(cv.moves.drop_last() =~= b.moves);
    let p0 = piece_at(cv, x2 as int, y2 as int).unwrap();
    assert(p0 == moved);
    lemma_tally_small(b, victim.piece_type);
    assert(undo_ok(cv));
    assert(undo_view(cv).grid =~= b.grid);
    assert(undo_view(cv) =~= b);
}

/// The round trip for a castle commit.
#[verifier::rlimit(50)]
#[verifier::spinoff_prover]
proof fn lemma_castle_undo_roundtrip(b: BoardView, x1: u8, y1: u8, x2: u8, y2: u8)
    requires
        wf(b),
        in_bounds(x1, y1),
        in_bounds(x2, y2),
        basic_ok(b, x1, y1, x2, y2),
        castle_shape(b, x1, y1, x2, y2),
        castle_clear(b, x1, y1, x2, y2),
    ensures
        undo_ok(castle_applied(b, x1, y1, x2, y2)),
        undo_view(castle_applied(b, x1, y1, x2, y2)) == b,
{
    let cv = castle_applied(b, x1, y1, x2, y2);
    let p = piece_at(b, x1 as int, y1 as int).unwrap();
    let moved = Piece { has_moved: true, ..p };
    let cx = castle_corner_x(x1, x2);
    let rx = castle_rook_dest_x(x1, x2);
    let rook = piece_at(b, cx as int, y1 as int).unwrap();
    assert(cv.moves.drop_last() =~= b.moves);
    let rec = cv.moves.last();
    let p0 = piece_at(cv, x2 as int, y2 as int).unwrap();
    assert(p0 == moved);
    assert(castle_record(rec, p0));
    assert(undo_rook_from_x(rec) == rx);
    assert(undo_rook_to_x(rec) == cx);
    assert(piece_at(cv, rx as int, y1 as int) == Some(Piece { has_moved: true, ..rook }));
    assert(undo_ok(cv));
    assert(piece_at(b, rx as int, y1 as int) is None);
    assert(undo_view(cv).grid =~= b.grid);
    assert(undo_view(cv) =~= b);
}

/// The round trip for a plain commit.
#[verifier::rlimit(50)]
#[verifier::spinoff_prover]
proof fn lemma_normal_undo_roundtrip(b: BoardView, x1: u8, y1: u8, x2: u8, y2: u8)
    requires
        wf(b),
        in_bounds(x1, y1),
        in_bounds(x2, y2),
        basic_ok(b, x1, y1, x2, y2),
        !ep_trigger(b, x1, y1, x2, y2),
        !castle_shape(b, x1, y1, x2, y2),
        type_ok(b, x1, y1, x2, y2),
    ensures
        undo_ok(normal_applied(b, x1, y1, x2, y2)),
        undo_view(normal_applied(b, x1, y1, x2, y2)) == b,
{
    let cv = normal_applied(b, x1, y1, x2, y2);
    let p = piece_at(b, x1 as int, y1 as int).unwrap();
    let moved = Piece { has_moved: true, ..p };
    let q = piece_at(b, x2 as int, y2 as int);
    assert(cv.moves.drop_last() =~= b.moves);
    let rec = cv.moves.last();
    let p0 = piece_at(cv, x2 as int, y2 as int).unwrap();
    assert(p0 == moved);
    if p.piece_type == PieceType::King {
        assert(king_geom_ok(b, x1, y1, x2, y2));
        assert(!castle_record(rec, p0));
    }
    if q is Some {
        lemma_tally_small(b, q.unwrap().piece_type);
    }
    assert(undo_ok(cv));
    assert(undo_view(cv).grid =~= b.grid);
    assert(undo_view(cv) =~= b);
}

/// Undoing a committed move restores the board it was committed on, exactly:
/// grid, turn, history and tallies.
pub proof fn lemma_commit_undo_roundtrip(b: BoardView, x1: u8, y1: u8, x2: u8, y2: u8)
    requires
        wf(b),
        in_bounds(x1, y1),
        in_bounds(x2, y2),
        commits(b, x1, y1, x2, y2),
    ensures
        undo_ok(committed(b, x1, y1, x2, y2)),
        undo_view(committed(b, x1, y1, x2, y2)) == b,
{
    if ep_trigger(b, x1, y1, x2, y2) {
        lemma_ep_undo_roundtrip(b, x1, y1, x2, y2);
    } else if castle_shape(b, x1, y1, x2, y2) {
        lemma_castle_undo_roundtrip(b, x1, y1, x2, y2);
    } else {
        lemma_normal_undo_roundtrip(b, x1, y1, x2, y2);
    }
}

/// How pushing one record moves the capture counts.
pub proof fn lemma_caps_push(ms: Seq<MoveRecord>, r: MoveRecord)
    ensures
        capture_count(ms.push(r)) == capture_count(ms) + (if r.capture is Some {
            1int
        } else {
            0int
        }),
        forall|t: PieceType|
            #[trigger] captures_of_type(ms.push(r), t) == captures_of_type(ms, t) + (
            if r.capture matches Some(p) && p.piece_type == t {
                1int
            } else {
                0int
            }),
{
    assert(ms.push(r).drop_last() =~= ms);
    assert(ms.push(r).last() == r);
}

} // verus!
