use chess::board::Board;
use chess::color::Color;
use chess::move_record::MoveRecord;
use chess::piece::{Piece, PieceType};

#[test]
fn undo_en_passant() {
    let wp = Piece::new(PieceType::Pawn, Color::White);
    let bp = Piece::new(PieceType::Pawn, Color::Black);
    let wk = Piece::new(PieceType::King, Color::White);
    let bk = Piece::new(PieceType::King, Color::Black);
    let mut b = Board::make_custom(
        vec![(wp, 0, 1), (bp, 1, 3), (wk, 0, 4), (bk, 7, 4)],
        Color::White,
    );
    assert!(b.move_piece(0, 1, 0, 3));
    let before = b.clone();
    assert!(b.move_piece(1, 3, 0, 2));
    assert_eq!(b.captured_by_black.get(PieceType::Pawn).unwrap(), 1);
    b.undo_last_move();
    assert_eq!(b, before);
    assert!(b.captured_by_black.is_empty());
    // the captured pawn is back where it stood, not on the capture square
    assert!(b.space(0, 3).piece().is_some());
    assert!(b.space(0, 2).piece().is_none());
}

#[test]
fn undo_move_onto_promotion_rank() {
    let wp = Piece::new(PieceType::Pawn, Color::White);
    let wk = Piece::new(PieceType::King, Color::White);
    let bk = Piece::new(PieceType::King, Color::Black);
    let mut b = Board::make_custom(vec![(wp, 0, 6), (wk, 7, 0), (bk, 7, 7)], Color::White);
    let before = b.clone();
    assert!(b.move_piece(0, 6, 0, 7));
    b.undo_last_move();
    assert_eq!(b, before);
}

#[test]
fn undo_on_empty_history_is_a_noop() {
    let mut b = Board::new();
    let b2 = Board::new();
    b.undo_last_move();
    assert_eq!(b, b2);
    assert_eq!(b.turn_color, Color::White);
}

#[test]
fn fools_mate_is_checkmate() {
    let mut b = Board::new();
    assert!(!b.is_in_checkmate(Color::White));
    assert!(b.move_piece(5, 1, 5, 2));
    assert!(b.move_piece(4, 6, 4, 4));
    assert!(b.move_piece(6, 1, 6, 3));
    assert!(b.move_piece(3, 7, 7, 3));
    assert!(b.is_in_check(Color::White));
    assert!(b.is_in_checkmate(Color::White));
    assert!(!b.is_in_checkmate(Color::Black));
}

#[test]
fn checkmate_query_leaves_board_unchanged() {
    let mut b = Board::new();
    assert!(b.move_piece(5, 1, 5, 2));
    assert!(b.move_piece(4, 6, 4, 4));
    let before = b.clone();
    assert!(!b.is_in_checkmate(Color::White));
    assert_eq!(b, before);
}

#[test]
fn legality_queries_are_pure() {
    let wr = Piece::new(PieceType::Rook, Color::White);
    let bq = Piece::new(PieceType::Queen, Color::Black);
    let b = Board::make_custom(vec![(wr, 1, 1), (bq, 1, 5)], Color::White);
    let before = b.clone();
    // the same query twice gives the same answer, and no query mutates
    assert_eq!(b.rook_can_move(1, 1, 1, 5), b.rook_can_move(1, 1, 1, 5));
    assert!(b.rook_can_move(1, 1, 1, 5));
    assert!(!b.rook_can_move(1, 1, 2, 2));
    assert!(b.is_space_attacked(1, 1, Color::White));
    assert_eq!(b, before);
}

#[test]
fn rejected_moves_change_nothing() {
    let mut b = Board::new();
    let before = b.clone();
    assert!(!b.move_piece(0, 0, 0, 4)); // rook blocked by own pawn
    assert!(!b.move_piece(0, 6, 0, 5)); // not White's piece
    assert!(!b.move_piece(3, 3, 3, 4)); // empty origin
    assert!(!b.move_piece(1, 0, 1, 0)); // origin equals destination
    assert_eq!(b, before);
}

#[test]
fn from_strs_parses_each_letter() {
    let strs = vec![
        "________", "________", "________", "________", "________", "_k______", "_K_qQ___",
        "RnBbNpPr", "B",
    ];
    let b = Board::from_strs(&strs);
    assert_eq!(b.turn_color, Color::Black);
    let check = |x: u8, y: u8, t: PieceType, c: Color| {
        let p = b.space(x, y).piece().unwrap();
        assert_eq!(p.piece_type(), t);
        assert_eq!(p.color(), c);
        assert!(!p.has_moved());
    };
    check(0, 0, PieceType::Rook, Color::White);
    check(1, 0, PieceType::Knight, Color::Black);
    check(2, 0, PieceType::Bishop, Color::White);
    check(3, 0, PieceType::Bishop, Color::Black);
    check(4, 0, PieceType::Knight, Color::White);
    check(5, 0, PieceType::Pawn, Color::Black);
    check(6, 0, PieceType::Pawn, Color::White);
    check(7, 0, PieceType::Rook, Color::Black);
    check(1, 1, PieceType::King, Color::White);
    check(3, 1, PieceType::Queen, Color::Black);
    check(4, 1, PieceType::Queen, Color::White);
    check(1, 2, PieceType::King, Color::Black);
    assert!(b.space(0, 1).piece().is_none());
    assert!(b.space(4, 4).piece().is_none());
}

#[test]
fn capture_tally_entry_leaves_at_zero() {
    let wr = Piece::new(PieceType::Rook, Color::White);
    let bp = Piece::new(PieceType::Pawn, Color::Black);
    let wk = Piece::new(PieceType::King, Color::White);
    let bk = Piece::new(PieceType::King, Color::Black);
    let mut b = Board::make_custom(
        vec![(wr, 0, 0), (bp, 0, 3), (wk, 7, 0), (bk, 7, 7)],
        Color::White,
    );
    assert!(!b.captured_by_white.contains_key(PieceType::Pawn));
    assert!(b.move_piece(0, 0, 0, 3));
    assert!(b.captured_by_white.contains_key(PieceType::Pawn));
    assert_eq!(b.captured_by_white.get(PieceType::Pawn), Some(1));
    b.undo_last_move();
    assert_eq!(b.captured_by_white.get(PieceType::Pawn), None);
    assert!(!b.captured_by_white.contains_key(PieceType::Pawn));
    assert!(b.captured_by_white.is_empty());
}

#[test]
fn accessors_report_the_position() {
    let b = Board::new();
    assert_eq!(b.turn_color(), Color::White);
    assert_eq!(b.spaces().len(), 64);
    assert!(b.captured_by_white().is_empty());
    assert!(b.captured_by_black().is_empty());
    let s = b.space(4, 0);
    assert_eq!(s.piece().as_ref().unwrap().piece_type(), PieceType::King);
    assert_eq!(s.piece_color(), Some(Color::White));
    assert_eq!(s.draw(), 'K');
    assert_eq!(b.space(4, 4).draw(), ' ');
    let b2 = Board::default();
    assert_eq!(b, b2);
}

#[test]
fn move_records_describe_the_move() {
    let bp = Piece::new(PieceType::Pawn, Color::Black);
    let mut r = MoveRecord::new(1, 1, 2, 2, Some(bp), PieceType::Pawn, true);
    assert_eq!(r.origin(), (1, 1));
    assert_eq!(r.dest(), (2, 2));
    assert_eq!(r.piece_type(), PieceType::Pawn);
    assert!(r.first_move());
    assert!(r.is_capture());
    let taken = r.take_captured_piece();
    assert_eq!(taken.unwrap().piece_type(), PieceType::Pawn);
    assert!(!r.is_capture());
    let r2 = MoveRecord::new_en_passant(0, 4, 1, 5, Some(bp), PieceType::Pawn, false);
    assert!(r2.is_capture());
    assert!(!r2.first_move());
}
