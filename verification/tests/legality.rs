use rustchess::board::Board;
use rustchess::piece::{Piece, PieceColor, PieceType};
use rustchess::square::{parse_position, Square};

fn at(name: &str) -> Square {
    parse_position(name).unwrap()
}

fn put(board: &mut Board, name: &str, piece_type: PieceType, color: PieceColor) {
    board.set_piece(at(name), Some(Piece { piece_type, color }));
}

fn kings_only() -> Board {
    let mut board = Board::empty();
    put(&mut board, "e1", PieceType::King, PieceColor::White);
    put(&mut board, "e8", PieceType::King, PieceColor::Black);
    board
}

#[test]
fn starting_layout() {
    let board = Board::new();
    let white = |piece_type| Some(Piece { piece_type, color: PieceColor::White });
    let black = |piece_type| Some(Piece { piece_type, color: PieceColor::Black });
    assert_eq!(board.piece_at(at("a1")), white(PieceType::Rook));
    assert_eq!(board.piece_at(at("b1")), white(PieceType::Knight));
    assert_eq!(board.piece_at(at("c1")), white(PieceType::Bishop));
    assert_eq!(board.piece_at(at("d1")), white(PieceType::Queen));
    assert_eq!(board.piece_at(at("e1")), white(PieceType::King));
    assert_eq!(board.piece_at(at("f1")), white(PieceType::Bishop));
    assert_eq!(board.piece_at(at("g1")), white(PieceType::Knight));
    assert_eq!(board.piece_at(at("h1")), white(PieceType::Rook));
    assert_eq!(board.piece_at(at("d8")), black(PieceType::Queen));
    assert_eq!(board.piece_at(at("e8")), black(PieceType::King));
    for file in "abcdefgh".chars() {
        assert_eq!(board.piece_at(at(&format!("{}2", file))), white(PieceType::Pawn));
        assert_eq!(board.piece_at(at(&format!("{}7", file))), black(PieceType::Pawn));
        for rank in "3456".chars() {
            assert_eq!(board.piece_at(at(&format!("{}{}", file, rank))), None);
        }
    }
}

#[test]
fn init_pieces_keeps_the_middle_rows() {
    let mut board = Board::empty();
    put(&mut board, "d4", PieceType::Knight, PieceColor::White);
    put(&mut board, "a1", PieceType::Queen, PieceColor::Black);
    board.init_pieces();
    let mut expected = Board::new();
    put(&mut expected, "d4", PieceType::Knight, PieceColor::White);
    assert_eq!(board, expected);
}

#[test]
fn nothing_stands_off_the_board() {
    let board = Board::new();
    assert_eq!(board.piece_at(Square { file: 8, row: 0 }), None);
    assert_eq!(board.piece_at(Square { file: 0, row: 8 }), None);
    let mut changed = board;
    changed.set_piece(
        Square { file: 9, row: 9 },
        Some(Piece { piece_type: PieceType::Queen, color: PieceColor::White }),
    );
    assert_eq!(changed, board);
}

#[test]
fn signed_coordinates() {
    assert!(Board::is_valid_position(0, 0));
    assert!(Board::is_valid_position(7, 7));
    assert!(!Board::is_valid_position(-1, 0));
    assert!(!Board::is_valid_position(0, 8));
    assert!(!Board::is_valid_position(8, 3));
}

#[test]
fn pawn_steps_from_the_start() {
    let board = Board::new();
    assert!(board.is_valid_move("e2", "e3"));
    assert!(board.is_valid_move("e2", "e4"));
    assert!(!board.is_valid_move("e2", "e5"));
    assert!(!board.is_valid_move("e2", "d3"));
    assert!(!board.is_valid_move("e2", "e1"));
    assert!(board.is_valid_move("e7", "e6"));
    assert!(board.is_valid_move("e7", "e5"));
    assert!(!board.is_valid_move("e7", "e4"));
    assert!(!board.is_valid_move("e7", "e8"));
}

#[test]
fn pawn_double_step_only_from_its_starting_row() {
    let mut board = kings_only();
    put(&mut board, "a3", PieceType::Pawn, PieceColor::White);
    assert!(board.is_valid_move("a3", "a4"));
    assert!(!board.is_valid_move("a3", "a5"));
}

#[test]
fn pawn_is_blocked_by_a_piece_in_front() {
    let mut board = kings_only();
    put(&mut board, "a2", PieceType::Pawn, PieceColor::White);
    put(&mut board, "a3", PieceType::Knight, PieceColor::Black);
    assert!(!board.is_valid_move("a2", "a3"));
    assert!(!board.is_valid_move("a2", "a4"));
    let mut board = kings_only();
    put(&mut board, "a2", PieceType::Pawn, PieceColor::White);
    put(&mut board, "a4", PieceType::Knight, PieceColor::Black);
    assert!(board.is_valid_move("a2", "a3"));
    assert!(!board.is_valid_move("a2", "a4"));
}

#[test]
fn pawn_captures_diagonally_only_onto_an_enemy() {
    let mut board = kings_only();
    put(&mut board, "d4", PieceType::Pawn, PieceColor::White);
    put(&mut board, "e5", PieceType::Pawn, PieceColor::Black);
    put(&mut board, "c5", PieceType::Pawn, PieceColor::White);
    assert!(board.is_valid_move("d4", "e5"));
    assert!(!board.is_valid_move("d4", "c5"));
    assert!(board.is_valid_move("e5", "d4"));
    assert!(!board.is_valid_move("e5", "f4"));
    assert!(!board.is_valid_move("d4", "e3"));
}

#[test]
fn knight_jumps() {
    let board = Board::new();
    assert!(board.is_valid_move("b1", "a3"));
    assert!(board.is_valid_move("b1", "c3"));
    assert!(!board.is_valid_move("b1", "d2"));
    assert!(!board.is_valid_move("b1", "b3"));
    assert!(board.is_valid_move("g8", "f6"));
}

#[test]
fn rook_needs_a_clear_line() {
    let mut board = kings_only();
    put(&mut board, "a1", PieceType::Rook, PieceColor::White);
    put(&mut board, "a5", PieceType::Pawn, PieceColor::Black);
    assert!(board.is_valid_move("a1", "a4"));
    assert!(board.is_valid_move("a1", "a5"));
    assert!(!board.is_valid_move("a1", "a6"));
    assert!(board.is_valid_move("a1", "d1"));
    assert!(!board.is_valid_move("a1", "e1"));
    assert!(!board.is_valid_move("a1", "f1"));
    assert!(!board.is_valid_move("a1", "b2"));
    assert!(!board.is_valid_move("a1", "a1"));
}

#[test]
fn bishop_needs_a_clear_diagonal() {
    let mut board = kings_only();
    put(&mut board, "c1", PieceType::Bishop, PieceColor::White);
    put(&mut board, "f4", PieceType::Pawn, PieceColor::Black);
    assert!(board.is_valid_move("c1", "d2"));
    assert!(board.is_valid_move("c1", "f4"));
    assert!(!board.is_valid_move("c1", "g5"));
    assert!(board.is_valid_move("c1", "a3"));
    assert!(!board.is_valid_move("c1", "c3"));
    assert!(!board.is_valid_move("c1", "c1"));
}

#[test]
fn queen_moves_like_rook_or_bishop() {
    let mut board = kings_only();
    put(&mut board, "d4", PieceType::Queen, PieceColor::White);
    assert!(board.is_valid_move("d4", "d7"));
    assert!(board.is_valid_move("d4", "h4"));
    assert!(board.is_valid_move("d4", "g7"));
    assert!(board.is_valid_move("d4", "a1"));
    assert!(!board.is_valid_move("d4", "e6"));
    assert!(!board.is_valid_move("d1", "d4"));
}

#[test]
fn king_steps_one_square() {
    let board = kings_only();
    assert!(board.is_valid_move("e1", "d1"));
    assert!(board.is_valid_move("e1", "d2"));
    assert!(board.is_valid_move("e1", "e2"));
    assert!(board.is_valid_move("e1", "f2"));
    assert!(board.is_valid_move("e1", "f1"));
    assert!(!board.is_valid_move("e1", "e3"));
    assert!(!board.is_valid_move("e1", "g1"));
    assert!(!board.is_valid_move("e1", "c1"));
}

#[test]
fn no_move_from_an_empty_square_or_onto_an_own_piece() {
    let board = Board::new();
    assert!(!board.is_valid_move("e4", "e5"));
    assert!(!board.is_valid_move("a1", "a2"));
    assert!(!board.is_valid_move("d1", "e1"));
    assert!(!board.is_valid_move("e1", "e1"));
}

#[test]
fn malformed_squares_are_illegal_moves() {
    let mut board = Board::new();
    assert!(!board.is_valid_move("e2", "e9"));
    assert!(!board.is_valid_move("z2", "e4"));
    assert!(!board.is_valid_move("e2", ""));
    assert!(!board.is_valid_move("e2e4", "e4"));
    assert!(!board.make_move("e2", "e44"));
    assert_eq!(board, Board::new());
}

#[test]
fn squares_off_the_board_are_illegal_moves() {
    let board = Board::new();
    assert!(!board.is_legal(Square { file: 4, row: 6 }, Square { file: 4, row: 8 }));
    assert!(!board.is_legal(Square { file: 8, row: 6 }, Square { file: 4, row: 4 }));
    assert!(!board.is_pseudo_legal(Square { file: 4, row: 64 }, Square { file: 4, row: 4 }));
    assert!(!board.is_valid_rook_move(Square { file: 0, row: 9 }, Square { file: 0, row: 0 }));
    assert!(!board.is_valid_king_move(Square { file: 0, row: 0 }, Square { file: 0, row: 8 }));
}

#[test]
fn piece_rules_alone() {
    let board = kings_only();
    assert!(board.is_valid_rook_move(at("a1"), at("a8")));
    assert!(!board.is_valid_rook_move(at("a1"), at("h1")));
    assert!(board.is_valid_bishop_move(at("a1"), at("h8")));
    assert!(!board.is_valid_bishop_move(at("a1"), at("b3")));
    assert!(board.is_valid_queen_move(at("a1"), at("h8")));
    assert!(board.is_valid_queen_move(at("a1"), at("a8")));
    assert!(board.is_valid_knight_move(at("a1"), at("b3")));
    assert!(!board.is_valid_knight_move(at("a1"), at("c3")));
    assert!(board.is_valid_king_move(at("a1"), at("b2")));
    assert!(!board.is_valid_king_move(at("a1"), at("c2")));
    assert!(board.is_valid_pawn_move(at("a2"), at("a4"), PieceColor::White));
    assert!(!board.is_valid_pawn_move(at("a2"), at("a4"), PieceColor::Black));
    assert!(board.is_valid_pawn_move(at("a7"), at("a5"), PieceColor::Black));
    assert!(board.is_valid_pawn_move(at("a7"), at("a6"), PieceColor::Black));
}

#[test]
fn pinned_piece_may_not_leave_the_line() {
    let mut board = Board::empty();
    put(&mut board, "e1", PieceType::King, PieceColor::White);
    put(&mut board, "e2", PieceType::Rook, PieceColor::White);
    put(&mut board, "e8", PieceType::Rook, PieceColor::Black);
    put(&mut board, "a8", PieceType::King, PieceColor::Black);
    assert!(board.is_pseudo_legal(at("e2"), at("a2")));
    assert!(!board.is_legal(at("e2"), at("a2")));
    assert!(!board.is_valid_move("e2", "h2"));
    assert!(board.is_valid_move("e2", "e5"));
    assert!(board.is_valid_move("e2", "e8"));
    let before = board;
    assert!(!board.make_move("e2", "a2"));
    assert_eq!(board, before);
}

#[test]
fn king_may_not_step_into_attack() {
    let mut board = Board::empty();
    put(&mut board, "e1", PieceType::King, PieceColor::White);
    put(&mut board, "a2", PieceType::Rook, PieceColor::Black);
    put(&mut board, "a8", PieceType::King, PieceColor::Black);
    assert!(!board.is_valid_move("e1", "e2"));
    assert!(!board.is_valid_move("e1", "d2"));
    assert!(board.is_valid_move("e1", "d1"));
    assert!(board.is_valid_move("e1", "f1"));
}

#[test]
fn move_onto_empty_square_is_legal_unless_it_exposes_the_king() {
    let mut board = Board::empty();
    put(&mut board, "e1", PieceType::King, PieceColor::White);
    put(&mut board, "e2", PieceType::Bishop, PieceColor::White);
    put(&mut board, "e8", PieceType::Queen, PieceColor::Black);
    put(&mut board, "a8", PieceType::King, PieceColor::Black);
    put(&mut board, "h2", PieceType::Knight, PieceColor::White);
    assert!(board.is_pseudo_legal(at("e2"), at("d3")));
    assert!(!board.is_legal(at("e2"), at("d3")));
    assert!(board.is_pseudo_legal(at("h2"), at("g4")));
    assert!(board.is_legal(at("h2"), at("g4")));
}

#[test]
fn check_is_detected() {
    let mut board = Board::empty();
    put(&mut board, "e1", PieceType::King, PieceColor::White);
    put(&mut board, "a8", PieceType::King, PieceColor::Black);
    assert!(!board.is_king_in_check(PieceColor::White));
    assert!(!board.is_king_in_check(PieceColor::Black));
    put(&mut board, "e8", PieceType::Rook, PieceColor::Black);
    assert!(board.is_king_in_check(PieceColor::White));
    assert!(!board.is_king_in_check(PieceColor::Black));
    put(&mut board, "e4", PieceType::Pawn, PieceColor::White);
    assert!(!board.is_king_in_check(PieceColor::White));
}

#[test]
fn a_pinned_piece_still_gives_check() {
    let mut board = Board::empty();
    put(&mut board, "e1", PieceType::King, PieceColor::White);
    put(&mut board, "h5", PieceType::Rook, PieceColor::White);
    put(&mut board, "a5", PieceType::King, PieceColor::Black);
    put(&mut board, "e5", PieceType::Rook, PieceColor::Black);
    assert!(!board.is_legal(at("e5"), at("e1")));
    assert!(board.is_pseudo_legal(at("e5"), at("e1")));
    assert!(board.is_king_in_check(PieceColor::White));
    assert!(!board.is_king_in_check(PieceColor::Black));
}

#[test]
fn pawn_attacks_diagonally_not_forward() {
    let mut board = Board::empty();
    put(&mut board, "e4", PieceType::King, PieceColor::White);
    put(&mut board, "a8", PieceType::King, PieceColor::Black);
    put(&mut board, "e5", PieceType::Pawn, PieceColor::Black);
    assert!(!board.is_king_in_check(PieceColor::White));
    put(&mut board, "d5", PieceType::Pawn, PieceColor::Black);
    assert!(board.is_king_in_check(PieceColor::White));
}

#[test]
fn a_side_without_king_is_not_in_check() {
    let mut board = Board::empty();
    put(&mut board, "a8", PieceType::King, PieceColor::Black);
    put(&mut board, "a1", PieceType::Rook, PieceColor::Black);
    assert_eq!(board.find_king(PieceColor::White), None);
    assert!(!board.is_king_in_check(PieceColor::White));
}

#[test]
fn finds_the_king() {
    let board = Board::new();
    assert_eq!(board.find_king(PieceColor::White), Some(at("e1")));
    assert_eq!(board.find_king(PieceColor::Black), Some(at("e8")));
}

#[test]
fn of_several_kings_the_lowest_leftmost_counts() {
    let mut board = Board::empty();
    put(&mut board, "c5", PieceType::King, PieceColor::White);
    put(&mut board, "b3", PieceType::King, PieceColor::White);
    put(&mut board, "g3", PieceType::King, PieceColor::White);
    assert_eq!(board.find_king(PieceColor::White), Some(at("b3")));
    put(&mut board, "c8", PieceType::Rook, PieceColor::Black);
    assert!(!board.is_king_in_check(PieceColor::White));
    put(&mut board, "b8", PieceType::Rook, PieceColor::Black);
    assert!(board.is_king_in_check(PieceColor::White));
}
