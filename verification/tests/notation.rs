use rustchess::square::{parse_position, Square};

#[test]
fn parses_corner_squares() {
    assert_eq!(parse_position("a8"), Some(Square { file: 0, row: 0 }));
    assert_eq!(parse_position("h8"), Some(Square { file: 7, row: 0 }));
    assert_eq!(parse_position("a1"), Some(Square { file: 0, row: 7 }));
    assert_eq!(parse_position("h1"), Some(Square { file: 7, row: 7 }));
}

#[test]
fn parses_king_pawn_squares() {
    assert_eq!(parse_position("e2"), Some(Square { file: 4, row: 6 }));
    assert_eq!(parse_position("e4"), Some(Square { file: 4, row: 4 }));
}

#[test]
fn rejects_wrong_length() {
    assert_eq!(parse_position(""), None);
    assert_eq!(parse_position("e"), None);
    assert_eq!(parse_position("e2e4"), None);
    assert_eq!(parse_position("e2 "), None);
}

#[test]
fn rejects_out_of_range_characters() {
    assert_eq!(parse_position("i1"), None);
    assert_eq!(parse_position("a9"), None);
    assert_eq!(parse_position("a0"), None);
    assert_eq!(parse_position("E2"), None);
    assert_eq!(parse_position("2e"), None);
    assert_eq!(parse_position("`1"), None);
}

#[test]
fn rejects_text_of_two_bytes_and_one_character() {
    assert_eq!(parse_position("\u{e9}"), None);
    assert_eq!(parse_position("\u{e9}1"), None);
}

#[test]
fn names_squares() {
    assert_eq!(Square { file: 0, row: 0 }.to_algebraic(), Some(String::from("a8")));
    assert_eq!(Square { file: 4, row: 6 }.to_algebraic(), Some(String::from("e2")));
    assert_eq!(Square { file: 7, row: 7 }.to_algebraic(), Some(String::from("h1")));
}

#[test]
fn names_no_square_off_the_board() {
    assert_eq!(Square { file: 8, row: 0 }.to_algebraic(), None);
    assert_eq!(Square { file: 0, row: 8 }.to_algebraic(), None);
}

#[test]
fn every_name_round_trips() {
    for file in "abcdefgh".chars() {
        for rank in "12345678".chars() {
            let text = format!("{}{}", file, rank);
            let sq = parse_position(&text).unwrap();
            assert!(sq.is_valid());
            assert_eq!(sq.to_algebraic(), Some(text));
        }
    }
}

#[test]
fn every_square_round_trips() {
    for i in 0..64 {
        let sq = Square::from_index(i);
        assert_eq!(sq, Square { file: i % 8, row: i / 8 });
        let name = sq.to_algebraic().unwrap();
        assert_eq!(parse_position(&name), Some(sq));
    }
}
