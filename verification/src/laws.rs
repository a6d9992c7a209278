//! Laws the engine guarantees, stated once over the abstract model and
//! proved for every board and every move.
//!
//! One law needs no lemma here because the types and contracts already
//! carry it: per-type move legality is a pure function of the current board
//! state. Each query (`pawn_can_move` and its five siblings, and
//! `is_space_attacked`) borrows the board immutably and returns exactly the
//! value of the corresponding `rules` specification function of the board's
//! view, so no query can mutate anything, and equal states give equal
//! answers.

use vstd::prelude::*;
use crate::rules;
use crate::rules::BoardView;

verus! {

/// A successful `move_piece` followed by `undo_last_move` restores the
/// pre-move board exactly — the grid with every piece and has-moved flag,
/// the side to move, the history, and the capture tallies — whatever kind
/// of move it was: a plain move, a capture, a pawn double step, an en
/// passant capture, or a castle to either side.
///
/// The first conclusion states it for any committed move, which also covers
/// the rollback inside `move_piece` of a move that would leave the mover's
/// own king in check; the second restates it through `move_result`, the
/// state `move_piece` leaves behind on success.
pub proof fn lemma_move_then_undo_restores(b: BoardView, x1: u8, y1: u8, x2: u8, y2: u8)
    requires
        rules::wf(b),
        rules::in_bounds(x1, y1),
        rules::in_bounds(x2, y2),
        rules::commits(b, x1, y1, x2, y2),
    ensures
        rules::undo_view(rules::committed(b, x1, y1, x2, y2)) == b,
        rules::move_ok(b, x1, y1, x2, y2) ==> rules::undo_view(
            rules::move_result(b, x1, y1, x2, y2),
        ) == b,
{
    rules::lemma_commit_undo_roundtrip(b, x1, y1, x2, y2);
}

} // verus!
