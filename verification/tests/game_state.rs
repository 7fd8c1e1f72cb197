use rustchess::board::Board;
use rustchess::piece::{Piece, PieceColor, PieceType};
use rustchess::square::parse_position;

fn place(board: &mut Board, name: &str, piece_type: PieceType, color: PieceColor) {
    board.set_piece(parse_position(name).unwrap(), Some(Piece { piece_type, color }));
}

#[test]
fn starting_position_is_quiet() {
    let board = Board::new();
    for color in [PieceColor::White, PieceColor::Black] {
        assert!(!board.is_king_in_check(color));
        assert!(!board.is_checkmate(color));
        assert!(!board.is_stalemate(color));
        assert!(board.can_escape(color));
    }
}

#[test]
fn fools_mate() {
    let mut board = Board::new();
    assert!(board.make_move("f2", "f3"));
    assert!(board.make_move("e7", "e5"));
    assert!(board.make_move("g2", "g4"));
    assert!(!board.is_checkmate(PieceColor::White));
    assert!(board.make_move("d8", "h4"));
    assert!(board.is_king_in_check(PieceColor::White));
    assert!(board.is_checkmate(PieceColor::White));
    assert!(!board.is_stalemate(PieceColor::White));
    assert!(!board.can_escape(PieceColor::White));
    assert!(!board.is_king_in_check(PieceColor::Black));
    assert!(!board.is_checkmate(PieceColor::Black));
}

#[test]
fn check_that_can_be_answered_is_no_mate() {
    let mut board = Board::new();
    assert!(board.make_move("e2", "e4"));
    assert!(board.make_move("f7", "f6"));
    assert!(board.make_move("d1", "h5"));
    assert!(board.is_king_in_check(PieceColor::Black));
    assert!(!board.is_checkmate(PieceColor::Black));
    assert!(!board.is_stalemate(PieceColor::Black));
    assert!(board.is_valid_move("g7", "g6"));
    assert!(!board.is_valid_move("a7", "a6"));
}

#[test]
fn stalemate_in_the_corner() {
    let mut board = Board::empty();
    place(&mut board, "h8", PieceType::King, PieceColor::Black);
    place(&mut board, "f7", PieceType::King, PieceColor::White);
    place(&mut board, "g6", PieceType::Queen, PieceColor::White);
    assert!(!board.is_king_in_check(PieceColor::Black));
    assert!(board.is_stalemate(PieceColor::Black));
    assert!(!board.is_checkmate(PieceColor::Black));
    assert!(!board.can_escape(PieceColor::Black));
    assert!(!board.is_stalemate(PieceColor::White));
    assert!(!board.is_checkmate(PieceColor::White));
}

#[test]
fn back_rank_mate() {
    let mut board = Board::empty();
    place(&mut board, "g8", PieceType::King, PieceColor::Black);
    place(&mut board, "f7", PieceType::Pawn, PieceColor::Black);
    place(&mut board, "g7", PieceType::Pawn, PieceColor::Black);
    place(&mut board, "h7", PieceType::Pawn, PieceColor::Black);
    place(&mut board, "a8", PieceType::Rook, PieceColor::White);
    place(&mut board, "e1", PieceType::King, PieceColor::White);
    assert!(board.is_king_in_check(PieceColor::Black));
    assert!(board.is_checkmate(PieceColor::Black));
    assert!(!board.is_stalemate(PieceColor::Black));
    place(&mut board, "d6", PieceType::Rook, PieceColor::Black);
    assert!(board.is_king_in_check(PieceColor::Black));
    assert!(!board.is_checkmate(PieceColor::Black));
    assert!(board.is_valid_move("d6", "d8"));
}

#[test]
fn a_side_without_pieces_is_stalemated() {
    let mut board = Board::empty();
    place(&mut board, "e1", PieceType::King, PieceColor::White);
    assert!(board.is_stalemate(PieceColor::Black));
    assert!(!board.is_checkmate(PieceColor::Black));
    assert!(!board.is_stalemate(PieceColor::White));
}

#[test]
fn no_legal_move_means_mate_or_stalemate() {
    let mut mated = Board::new();
    for (from, to) in [("f2", "f3"), ("e7", "e5"), ("g2", "g4"), ("d8", "h4")] {
        assert!(mated.make_move(from, to));
    }
    let mut stale = Board::empty();
    place(&mut stale, "h8", PieceType::King, PieceColor::Black);
    place(&mut stale, "f7", PieceType::King, PieceColor::White);
    place(&mut stale, "g6", PieceType::Queen, PieceColor::White);
    for board in [Board::new(), mated, stale] {
        for color in [PieceColor::White, PieceColor::Black] {
            let stuck = board.legal_moves(color).is_empty();
            assert_eq!(stuck, board.is_checkmate(color) || board.is_stalemate(color));
            assert_eq!(stuck, !board.can_escape(color));
            assert!(!(board.is_checkmate(color) && board.is_stalemate(color)));
        }
    }
}

#[test]
fn promoting_move_keeps_the_king_safe() {
    let mut board = Board::empty();
    place(&mut board, "h1", PieceType::King, PieceColor::White);
    place(&mut board, "a7", PieceType::Pawn, PieceColor::White);
    place(&mut board, "h8", PieceType::King, PieceColor::Black);
    assert!(board.can_escape(PieceColor::White));
    assert!(board.make_move("a7", "a8"));
    assert!(!board.is_king_in_check(PieceColor::White));
    assert!(board.is_king_in_check(PieceColor::Black));
}
