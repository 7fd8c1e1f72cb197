use rustchess::board::Board;
use rustchess::piece::{Piece, PieceColor, PieceType};
use rustchess::render::{piece_symbol, render_cell};

fn man(piece_type: PieceType, color: PieceColor) -> Piece {
    Piece { piece_type, color }
}

#[test]
fn figurines() {
    assert_eq!(piece_symbol(man(PieceType::King, PieceColor::White)), "\u{2654}");
    assert_eq!(piece_symbol(man(PieceType::Queen, PieceColor::White)), "\u{2655}");
    assert_eq!(piece_symbol(man(PieceType::Rook, PieceColor::White)), "\u{2656}");
    assert_eq!(piece_symbol(man(PieceType::Bishop, PieceColor::White)), "\u{2657}");
    assert_eq!(piece_symbol(man(PieceType::Knight, PieceColor::White)), "\u{2658}");
    assert_eq!(piece_symbol(man(PieceType::Pawn, PieceColor::White)), "\u{2659}");
    assert_eq!(piece_symbol(man(PieceType::King, PieceColor::Black)), "\u{265a}");
    assert_eq!(piece_symbol(man(PieceType::Queen, PieceColor::Black)), "\u{265b}");
    assert_eq!(piece_symbol(man(PieceType::Rook, PieceColor::Black)), "\u{265c}");
    assert_eq!(piece_symbol(man(PieceType::Bishop, PieceColor::Black)), "\u{265d}");
    assert_eq!(piece_symbol(man(PieceType::Knight, PieceColor::Black)), "\u{265e}");
    assert_eq!(piece_symbol(man(PieceType::Pawn, PieceColor::Black)), "\u{265f}");
}

#[test]
fn cells_in_colour() {
    colored::control::set_override(true);
    assert_eq!(
        render_cell(Some(man(PieceType::King, PieceColor::White))),
        "\u{1b}[37m\u{2654}\u{1b}[0m"
    );
    assert_eq!(
        render_cell(Some(man(PieceType::Pawn, PieceColor::Black))),
        "\u{1b}[30m\u{265f}\u{1b}[0m"
    );
    assert_eq!(render_cell(None), "\u{b7}");
}

#[test]
fn cells_without_colour() {
    colored::control::set_override(false);
    assert_eq!(render_cell(Some(man(PieceType::King, PieceColor::White))), "\u{2654}");
    assert_eq!(render_cell(Some(man(PieceType::Pawn, PieceColor::Black))), "\u{265f}");
    assert_eq!(render_cell(None), "\u{b7}");
}

#[test]
fn starting_position_without_colour() {
    colored::control::set_override(false);
    let lines = Board::new().render();
    let expected = vec![
        "  a b c d e f g h",
        "  \u{2500}\u{2500}\u{2500}\u{2500}\u{2500}\u{2500}\u{2500}\u{2500}\u{2500}\u{2500}\u{2500}\u{2500}\u{2500}",
        "8 \u{265c} \u{265e} \u{265d} \u{265b} \u{265a} \u{265d} \u{265e} \u{265c} 8",
        "7 \u{265f} \u{265f} \u{265f} \u{265f} \u{265f} \u{265f} \u{265f} \u{265f} 7",
        "6 \u{b7} \u{b7} \u{b7} \u{b7} \u{b7} \u{b7} \u{b7} \u{b7} 6",
        "5 \u{b7} \u{b7} \u{b7} \u{b7} \u{b7} \u{b7} \u{b7} \u{b7} 5",
        "4 \u{b7} \u{b7} \u{b7} \u{b7} \u{b7} \u{b7} \u{b7} \u{b7} 4",
        "3 \u{b7} \u{b7} \u{b7} \u{b7} \u{b7} \u{b7} \u{b7} \u{b7} 3",
        "2 \u{2659} \u{2659} \u{2659} \u{2659} \u{2659} \u{2659} \u{2659} \u{2659} 2",
        "1 \u{2656} \u{2658} \u{2657} \u{2655} \u{2654} \u{2657} \u{2658} \u{2656} 1",
        "  \u{2500}\u{2500}\u{2500}\u{2500}\u{2500}\u{2500}\u{2500}\u{2500}\u{2500}\u{2500}\u{2500}\u{2500}\u{2500}",
        "  a b c d e f g h",
    ];
    assert_eq!(lines, expected);
}

#[test]
fn a_row_in_colour() {
    colored::control::set_override(true);
    let mut board = Board::empty();
    board.squares[8 * 4] = Some(man(PieceType::Rook, PieceColor::White));
    board.squares[8 * 4 + 7] = Some(man(PieceType::Knight, PieceColor::Black));
    let lines = board.render();
    assert_eq!(lines.len(), 12);
    assert_eq!(
        lines[6],
        "4 \u{1b}[37m\u{2656}\u{1b}[0m \u{b7} \u{b7} \u{b7} \u{b7} \u{b7} \u{b7} \u{1b}[30m\u{265e}\u{1b}[0m 4"
    );
    assert_eq!(lines[2], "8 \u{b7} \u{b7} \u{b7} \u{b7} \u{b7} \u{b7} \u{b7} \u{b7} 8");
}
