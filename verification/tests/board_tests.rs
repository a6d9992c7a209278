use chess::board::Board;
use chess::color::Color;
use chess::piece::{Piece, PieceType};

#[test]
fn pawn_can_move_forward_into_empty() {
    let wp = Piece::new(PieceType::Pawn, Color::White);
    let bp = Piece::new(PieceType::Pawn, Color::Black);
    let b = Board::make_custom(vec![(wp, 0, 1)], Color::White);
    assert!(b.pawn_can_move(0, 1, 0, 2));
    let b = Board::make_custom(vec![(bp, 0, 6)], Color::Black);
    assert!(b.pawn_can_move(0, 6, 0, 5));
}

#[test]
fn pawn_can_capture() {
    let wp = Piece::new(PieceType::Pawn, Color::White);
    let bp = Piece::new(PieceType::Pawn, Color::Black);
    let b = Board::make_custom(vec![(wp.clone(), 0, 1), (bp.clone(), 1, 2)], Color::White);
    assert!(b.pawn_can_move(0, 1, 1, 2));
    let b = Board::make_custom(vec![(wp, 0, 5), (bp, 1, 6)], Color::Black);
    assert!(b.pawn_can_move(1, 6, 0, 5));
}

#[test]
fn pawn_cannot_move_forward_into_occupied() {
    let wp = Piece::new(PieceType::Pawn, Color::White);
    let bp = Piece::new(PieceType::Pawn, Color::Black);
    let b = Board::make_custom(vec![(wp.clone(), 0, 1), (bp.clone(), 0, 2)], Color::White);
    assert!(!b.pawn_can_move(0, 1, 0, 2));
    let b = Board::make_custom(vec![(wp.clone(), 0, 5), (bp.clone(), 0, 6)], Color::Black);
    assert!(!b.pawn_can_move(0, 6, 0, 5));
    let b = Board::make_custom(vec![(wp.clone(), 0, 1), (bp.clone(), 0, 3)], Color::White);
    assert!(!b.pawn_can_move(0, 1, 0, 3));
    let b = Board::make_custom(vec![(wp, 0, 4), (bp, 0, 6)], Color::Black);
    assert!(!b.pawn_can_move(0, 6, 0, 4));
}

#[test]
fn pawn_can_move_forward_two() {
    let wp = Piece::new(PieceType::Pawn, Color::White);
    let bp = Piece::new(PieceType::Pawn, Color::Black);
    let b = Board::make_custom(vec![(wp, 0, 1)], Color::White);
    assert!(b.pawn_can_move(0, 1, 0, 3));
    let b = Board::make_custom(vec![(bp, 0, 6)], Color::Black);
    assert!(b.pawn_can_move(0, 6, 0, 4));
}

#[test]
fn pawn_cannot_move_forward_two_after_move() {
    let mut wp = Piece::new(PieceType::Pawn, Color::White);
    let mut bp = Piece::new(PieceType::Pawn, Color::Black);
    wp.mark_moved();
    bp.mark_moved();
    let b = Board::make_custom(vec![(wp, 0, 1)], Color::White);
    assert!(!b.pawn_can_move(0, 1, 0, 3));
    let b = Board::make_custom(vec![(bp, 0, 6)], Color::Black);
    assert!(!b.pawn_can_move(0, 6, 0, 4));
}

#[test]
fn pawn_cannot_capture_into_empty() {
    let wp = Piece::new(PieceType::Pawn, Color::White);
    let bp = Piece::new(PieceType::Pawn, Color::Black);
    let b = Board::make_custom(vec![(wp, 0, 1)], Color::White);
    assert!(!b.pawn_can_move(0, 1, 1, 2));
    let b = Board::make_custom(vec![(bp, 1, 6)], Color::Black);
    assert!(!b.pawn_can_move(1, 6, 0, 5));
}

#[test]
fn pawn_cannot_move_two_and_capture() {
    let wp = Piece::new(PieceType::Pawn, Color::White);
    let bp = Piece::new(PieceType::Pawn, Color::Black);
    let b = Board::make_custom(vec![(wp.clone(), 0, 1), (bp.clone(), 1, 3)], Color::White);
    assert!(!b.pawn_can_move(0, 1, 1, 3));
    let b = Board::make_custom(vec![(wp.clone(), 0, 4), (bp.clone(), 1, 6)], Color::Black);
    assert!(!b.pawn_can_move(1, 6, 0, 4));
    let b = Board::make_custom(vec![(wp, 0, 1)], Color::White);
    assert!(!b.pawn_can_move(0, 1, 1, 3));
    let b = Board::make_custom(vec![(bp, 1, 6)], Color::Black);
    assert!(!b.pawn_can_move(1, 6, 0, 4));
}

#[test]
fn pawn_cannot_move_backwards() {
    let wp = Piece::new(PieceType::Pawn, Color::White);
    let bp = Piece::new(PieceType::Pawn, Color::Black);
    let b = Board::make_custom(vec![(wp, 0, 1)], Color::White);
    assert!(!b.pawn_can_move(0, 1, 0, 0));
    let b = Board::make_custom(vec![(bp, 0, 6)], Color::Black);
    assert!(!b.pawn_can_move(0, 6, 0, 7));
}

#[test]
fn pawn_cannnot_move_through() {
    let wp = Piece::new(PieceType::Pawn, Color::White);
    let bp = Piece::new(PieceType::Pawn, Color::Black);
    let b = Board::make_custom(vec![(wp.clone(), 0, 1), (bp.clone(), 0, 2)], Color::White);
    assert!(!b.pawn_can_move(0, 1, 0, 3));
    let b = Board::make_custom(vec![(bp, 0, 6), (wp, 0, 5)], Color::Black);
    assert!(!b.pawn_can_move(0, 6, 0, 4));
}

#[test]
fn pawn_can_en_passant() {
    let wp = Piece::new(PieceType::Pawn, Color::White);
    let bp = Piece::new(PieceType::Pawn, Color::Black);

    // add kings so the check test after each move has a king to find
    let wk = Piece::new(PieceType::King, Color::White);
    let bk = Piece::new(PieceType::King, Color::Black);
    let mut b = Board::make_custom(
        vec![(wp, 0, 1), (bp, 1, 3), (wk, 0, 4), (bk, 7, 4)],
        Color::White,
    );
    assert!(b.move_piece(0, 1, 0, 3));
    assert!(b.move_piece(1, 3, 0, 2));
    assert!(b.space(0, 3).piece().is_none());
}

#[test]
fn rook_can_move_into_empty() {
    let wr = Piece::new(PieceType::Rook, Color::White);
    let b = Board::make_custom(vec![(wr, 1, 1)], Color::White);
    assert!(b.rook_can_move(1, 1, 1, 4));
    assert!(b.rook_can_move(1, 1, 4, 1));
    assert!(b.rook_can_move(1, 1, 0, 1));
    assert!(b.rook_can_move(1, 1, 1, 0));
}

#[test]
fn rook_cannot_move_diagonally() {
    let wr = Piece::new(PieceType::Rook, Color::White);
    let b = Board::make_custom(vec![(wr, 0, 1)], Color::White);
    assert!(!b.rook_can_move(0, 1, 1, 2));
}

#[test]
fn rook_cannot_move_through() {
    let wr = Piece::new(PieceType::Rook, Color::White);
    let b = Board::make_custom(
        vec![(wr.clone(), 0, 1), (wr.clone(), 0, 3), (wr, 1, 1)],
        Color::White,
    );
    assert!(!b.rook_can_move(0, 1, 0, 5));
    assert!(!b.rook_can_move(0, 1, 2, 1));
}

#[test]
fn rook_can_capture() {
    let wr = Piece::new(PieceType::Rook, Color::White);
    let br = Piece::new(PieceType::Rook, Color::Black);
    let b = Board::make_custom(
        vec![(wr.clone(), 1, 1), (br, 1, 5), (wr, 5, 1)],
        Color::White,
    );
    assert!(!b.rook_can_move(1, 1, 5, 1));
    assert!(b.rook_can_move(1, 1, 1, 5));
}

#[test]
fn bishop_can_move_into_empty() {
    let wb = Piece::new(PieceType::Bishop, Color::White);
    let b = Board::make_custom(vec![(wb, 2, 3)], Color::White);
    assert!(b.bishop_can_move(2, 3, 5, 6));
    assert!(b.bishop_can_move(2, 3, 0, 5));
    assert!(b.bishop_can_move(2, 3, 4, 1));
    assert!(b.bishop_can_move(2, 3, 0, 1));
}

#[test]
fn bishop_cannot_move_nondiagonally() {
    let wb = Piece::new(PieceType::Bishop, Color::White);
    let b = Board::make_custom(vec![(wb, 2, 3)], Color::White);
    assert!(!b.bishop_can_move(2, 3, 4, 6));
    assert!(!b.bishop_can_move(2, 3, 1, 5));
    assert!(!b.bishop_can_move(2, 3, 2, 1));
    assert!(!b.bishop_can_move(2, 3, 0, 0));
}

#[test]
fn bishop_cannot_move_through() {
    let wb = Piece::new(PieceType::Bishop, Color::White);
    let bp = Piece::new(PieceType::Pawn, Color::Black);
    let b = Board::make_custom(vec![(wb.clone(), 2, 3), (wb.clone(), 4, 5)], Color::White);
    assert!(!b.bishop_can_move(2, 3, 5, 6));
    let b = Board::make_custom(
        vec![(wb, 7, 2), (bp.clone(), 5, 4), (bp, 4, 5)],
        Color::White,
    );
    assert!(!b.bishop_can_move(7, 2, 4, 5));
}

#[test]
fn bishop_can_capture() {
    let wb = Piece::new(PieceType::Bishop, Color::White);
    let bb = Piece::new(PieceType::Bishop, Color::Black);
    let b = Board::make_custom(
        vec![(wb.clone(), 2, 3), (bb, 4, 5), (wb, 0, 5)],
        Color::White,
    );
    assert!(!b.bishop_can_move(2, 3, 5, 6));
    assert!(!b.bishop_can_move(2, 3, 0, 5));
    assert!(b.bishop_can_move(2, 3, 4, 5));
}

#[test]
fn king_can_move_into_empty() {
    let wk = Piece::new(PieceType::King, Color::White);
    let b = Board::make_custom(vec![(wk, 2, 3)], Color::White);
    assert!(b.king_can_move(2, 3, 2, 4));
    assert!(b.king_can_move(2, 3, 1, 4));
    assert!(b.king_can_move(2, 3, 1, 3));
    assert!(b.king_can_move(2, 3, 3, 2));
}

#[test]
fn king_cannot_move_into_check() {
    let wk = Piece::new(PieceType::King, Color::White);
    let bq = Piece::new(PieceType::Queen, Color::Black);
    let b = Board::make_custom(vec![(wk, 2, 3), (bq, 5, 4)], Color::White);
    assert!(!b.king_can_move(2, 3, 2, 4));
    assert!(!b.king_can_move(2, 3, 1, 4));
    assert!(b.king_can_move(2, 3, 1, 3));
    assert!(!b.king_can_move(2, 3, 3, 2));
}

#[test]
fn king_can_capture() {
    let wk = Piece::new(PieceType::King, Color::White);
    let bk = Piece::new(PieceType::King, Color::Black);
    let b = Board::make_custom(
        vec![(wk.clone(), 2, 3), (wk, 2, 4), (bk, 1, 4)],
        Color::White,
    );
    assert!(!b.king_can_move(2, 3, 2, 4));
    assert!(b.king_can_move(2, 3, 1, 4));
}

#[test]
fn knight_can_move_into_empty() {
    let wn = Piece::new(PieceType::Knight, Color::White);
    let b = Board::make_custom(vec![(wn, 6, 2)], Color::White);
    assert!(b.knight_can_move(6, 2, 5, 4));
    assert!(b.knight_can_move(6, 2, 7, 4));
    assert!(b.knight_can_move(6, 2, 4, 3));
    assert!(b.knight_can_move(6, 2, 5, 0));
    assert!(b.knight_can_move(6, 2, 7, 0));
}

#[test]
fn knight_can_capture() {
    let wn = Piece::new(PieceType::Knight, Color::White);
    let bn = Piece::new(PieceType::Knight, Color::Black);
    let b = Board::make_custom(
        vec![(wn.clone(), 6, 2), (wn, 5, 4), (bn, 7, 4)],
        Color::White,
    );
    assert!(!b.knight_can_move(6, 2, 5, 4));
    assert!(b.knight_can_move(6, 2, 7, 4));
}

#[test]
fn space_is_attacked() {
    let wq = Piece::new(PieceType::Queen, Color::White);
    let bq = Piece::new(PieceType::Queen, Color::Black);
    let b = Board::make_custom(vec![(wq, 3, 4), (bq, 3, 5)], Color::White);
    assert!(b.is_space_attacked(0, 4, Color::Black));
    assert!(!b.is_space_attacked(0, 4, Color::White));
    assert!(!b.is_space_attacked(3, 6, Color::Black));
    assert!(b.is_space_attacked(3, 6, Color::White));
    assert!(b.is_space_attacked(1, 7, Color::White));
}

#[test]
fn queenside_castle() {
    let wk = Piece::new(PieceType::King, Color::White);
    let wr = Piece::new(PieceType::Rook, Color::White);
    let mut b = Board::make_custom(vec![(wk, 4, 0), (wr, 0, 0)], Color::White);
    assert!(b.move_piece(4, 0, 2, 0));
    assert_eq!(
        b.space(2, 0).piece().as_ref().unwrap().piece_type(),
        PieceType::King
    );
    assert_eq!(
        b.space(3, 0).piece().as_ref().unwrap().piece_type(),
        PieceType::Rook
    );
    let bk = Piece::new(PieceType::King, Color::Black);
    let br = Piece::new(PieceType::Rook, Color::Black);
    let mut b = Board::make_custom(vec![(bk, 4, 7), (br, 0, 7)], Color::Black);
    assert!(b.move_piece(4, 7, 2, 7));
    assert_eq!(
        b.space(2, 7).piece().as_ref().unwrap().piece_type(),
        PieceType::King
    );
    assert_eq!(
        b.space(3, 7).piece().as_ref().unwrap().piece_type(),
        PieceType::Rook
    );
}

#[test]
fn kingside_castle() {
    let wk = Piece::new(PieceType::King, Color::White);
    let wr = Piece::new(PieceType::Rook, Color::White);
    let mut b = Board::make_custom(vec![(wk, 4, 0), (wr, 7, 0)], Color::White);
    assert!(b.move_piece(4, 0, 6, 0));
    assert_eq!(
        b.space(6, 0).piece().as_ref().unwrap().piece_type(),
        PieceType::King
    );
    assert_eq!(
        b.space(5, 0).piece().as_ref().unwrap().piece_type(),
        PieceType::Rook
    );
    let bk = Piece::new(PieceType::King, Color::Black);
    let br = Piece::new(PieceType::Rook, Color::Black);
    let mut b = Board::make_custom(vec![(bk, 4, 7), (br, 7, 7)], Color::Black);
    assert!(b.move_piece(4, 7, 6, 7));
    assert_eq!(
        b.space(6, 7).piece().as_ref().unwrap().piece_type(),
        PieceType::King
    );
    assert_eq!(
        b.space(5, 7).piece().as_ref().unwrap().piece_type(),
        PieceType::Rook
    );
}

#[test]
fn cant_castle_through_check() {
    let wk = Piece::new(PieceType::King, Color::White);
    let wr = Piece::new(PieceType::Rook, Color::White);
    let br = Piece::new(PieceType::Rook, Color::Black);
    let mut b = Board::make_custom(
        vec![(wk, 4, 0), (wr.clone(), 7, 0), (br.clone(), 5, 2)],
        Color::White,
    );
    assert!(!b.move_piece(4, 0, 6, 0));
    let bk = Piece::new(PieceType::King, Color::Black);
    let mut b = Board::make_custom(vec![(bk, 4, 7), (br, 7, 7), (wr, 5, 5)], Color::White);
    assert!(!b.move_piece(4, 7, 6, 7));
}

#[test]
fn board_from_strs_default() {
    let b = Board::new();
    let strs = vec![
        "rnbqkbnr", "pppppppp", "________", "________", "________", "________", "PPPPPPPP",
        "RNBQKBNR", "W",
    ];
    let b2 = Board::from_strs(&strs);
    assert_eq!(b, b2);
}

#[test]
fn undo_first_move() {
    let mut b = Board::new();
    let b2 = Board::new();
    assert!(b.move_piece(1, 1, 1, 3));
    assert_ne!(b, b2);
    assert_eq!(b.turn_color, Color::Black);
    b.undo_last_move();
    assert_eq!(b, b2);
    assert_eq!(b.turn_color, Color::White);
}

#[test]
fn undo_capture() {
    let mut b = Board::new();
    let mut b2 = Board::new();
    assert!(b.move_piece(1, 1, 1, 3));
    assert!(b2.move_piece(1, 1, 1, 3));
    assert!(b.move_piece(2, 6, 2, 4));
    assert!(b2.move_piece(2, 6, 2, 4));
    assert!(b.move_piece(1, 3, 2, 4));
    assert_ne!(b, b2);
    assert_eq!(b.turn_color, Color::Black);
    b.undo_last_move();
    assert_eq!(b, b2);
    assert_eq!(b.turn_color, Color::White);
}

#[test]
fn undo_castle() {
    let wk = Piece::new(PieceType::King, Color::White);
    let wr = Piece::new(PieceType::Rook, Color::White);
    let mut b = Board::make_custom(vec![(wk, 4, 0), (wr, 7, 0)], Color::White);
    let b2 = b.clone();
    assert!(b.move_piece(4, 0, 6, 0));
    assert_eq!(b.turn_color, Color::Black);
    b.undo_last_move();
    assert_eq!(b, b2);
    assert_eq!(b.turn_color, Color::White);

    let bk = Piece::new(PieceType::King, Color::Black);
    let br = Piece::new(PieceType::Rook, Color::Black);
    let mut b = Board::make_custom(vec![(bk, 4, 7), (br, 0, 7)], Color::Black);
    let b2 = b.clone();
    assert!(b.move_piece(4, 7, 2, 7));
    assert_eq!(b.turn_color, Color::White);
    b.undo_last_move();
    assert_eq!(b, b2);
    assert_eq!(b.turn_color, Color::Black);
}

#[test]
fn prevent_move_exposing_check() {
    let mut b = Board::new();
    assert!(b.move_piece(4, 1, 4, 2));
    assert!(b.move_piece(2, 6, 2, 5));
    assert!(b.move_piece(4, 2, 4, 3));
    assert!(b.move_piece(3, 7, 0, 4));
    let b2 = b.clone();
    assert!(!b.move_piece(3, 1, 3, 2)); // cannot move this pawn as it would expose check from the queen
    assert_eq!(b, b2);
}

#[test]
fn board_promote() {
    let wp = Piece::new(PieceType::Pawn, Color::White);
    let bp = Piece::new(PieceType::Pawn, Color::Black);
    let mut b = Board::make_custom(vec![(wp, 0, 7), (bp, 0, 0)], Color::White);
    let wb = Piece::new(PieceType::Bishop, Color::White);
    let br = Piece::new(PieceType::Rook, Color::Black);
    let b2 = Board::make_custom(vec![(wb, 0, 7), (br, 0, 0)], Color::White);
    b.promote_pawn(0, 7, PieceType::Bishop);
    b.promote_pawn(0, 0, PieceType::Rook);
    assert_eq!(b, b2);
}

#[test]
fn record_capture() {
    let wr = Piece::new(PieceType::Rook, Color::White);
    let br = Piece::new(PieceType::Rook, Color::Black);
    let wp = Piece::new(PieceType::Pawn, Color::White);
    let bp = Piece::new(PieceType::Pawn, Color::Black);
    // add kings so the check test after each move has a king to find
    let wk = Piece::new(PieceType::King, Color::White);
    let bk = Piece::new(PieceType::King, Color::Black);
    let mut b = Board::make_custom(
        vec![
            (wr, 0, 0),
            (br, 2, 1),
            (wp, 1, 1),
            (bp.clone(), 0, 1),
            (bp, 1, 4),
            (wk, 7, 7),
            (bk, 5, 7),
        ],
        Color::White,
    );
    assert!(b.captured_by_white.is_empty());
    assert!(b.captured_by_black.is_empty());
    assert!(b.move_piece(0, 0, 0, 1));
    assert_eq!(b.captured_by_white.get(PieceType::Pawn).unwrap(), 1);
    assert!(b.captured_by_black.is_empty());
    assert!(b.move_piece(2, 1, 1, 1));
    assert_eq!(b.captured_by_black.get(PieceType::Pawn).unwrap(), 1);
    assert!(b.move_piece(0, 1, 1, 1));
    assert_eq!(b.captured_by_white.get(PieceType::Rook).unwrap(), 1);
    assert!(b.move_piece(1, 4, 1, 3));
    assert!(b.move_piece(1, 1, 1, 3));
    assert_eq!(b.captured_by_white.get(PieceType::Pawn).unwrap(), 2);
    b.undo_last_move();
    assert_eq!(b.captured_by_white.get(PieceType::Pawn).unwrap(), 1);
    b.undo_last_move();
    b.undo_last_move();
    assert!(!b.captured_by_white.contains_key(PieceType::Rook));
}
