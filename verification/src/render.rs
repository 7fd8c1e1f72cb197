use crate::board::{cell, Board, Position};
use crate::piece::{Piece, PieceColor, PieceType};
use crate::square::rank_digit;
use colored::Colorize;
use vstd::prelude::*;
use vstd::string::*;

verus! {

/// The figurine that stands for a piece.
pub open spec fn glyph(piece: Piece) -> char {
    match (piece.piece_type, piece.color) {
        (PieceType::King, PieceColor::White) => '♔',
        (PieceType::Queen, PieceColor::White) => '♕',
        (PieceType::Rook, PieceColor::White) => '♖',
        (PieceType::Bishop, PieceColor::White) => '♗',
        (PieceType::Knight, PieceColor::White) => '♘',
        (PieceType::Pawn, PieceColor::White) => '♙',
        (PieceType::King, PieceColor::Black) => '♚',
        (PieceType::Queen, PieceColor::Black) => '♛',
        (PieceType::Rook, PieceColor::Black) => '♜',
        (PieceType::Bishop, PieceColor::Black) => '♝',
        (PieceType::Knight, PieceColor::Black) => '♞',
        (PieceType::Pawn, PieceColor::Black) => '♟',
    }
}

/// The escape sequence that switches the terminal to a foreground colour:
/// `7` is white, `0` is black.
pub open spec fn colour_on(code: char) -> Seq<char> {
    seq!['\x1b', '[', '3', code, 'm']
}

/// The escape sequence that switches all colours off again.
pub open spec fn colour_off() -> Seq<char> {
    seq!['\x1b', '[', '0', 'm']
}

/// Whether `shown` is one of the forms in which a text comes back from
/// being coloured: unchanged, where colouring is switched off; between the
/// two escape sequences, where it is on; or followed by the second sequence
/// alone, where it was switched off halfway.
pub open spec fn is_coloured(shown: Seq<char>, text: Seq<char>, code: char) -> bool {
    ||| shown == text
    ||| shown == colour_on(code) + text + colour_off()
    ||| shown == text + colour_off()
}

/// The digit that names the foreground colour of a side's pieces.
pub open spec fn colour_code(color: PieceColor) -> char {
    match color {
        PieceColor::White => '7',
        PieceColor::Black => '0',
    }
}

/// Whether `shown` is a way to show one cell of the board: a dot for an
/// empty cell, the piece's figurine in the colour of its side for an
/// occupied one.
pub open spec fn shows_cell(shown: Seq<char>, content: Option<Piece>) -> bool {
    match content {
        None => shown == seq!['·'],
        Some(piece) => is_coloured(shown, seq![glyph(piece)], colour_code(piece.color)),
    }
}

/// The first `n` of the cell texts, each followed by a blank.
pub open spec fn spaced(cells: Seq<Seq<char>>, n: int) -> Seq<char>
    decreases n,
{
    if n <= 0 {
        Seq::empty()
    } else {
        spaced(cells, n - 1) + cells[n - 1] + seq![' ']
    }
}

/// The digit that labels a row of the board.
pub open spec fn rank_label(row: int) -> char {
    ('8' as int - row) as char
}

/// Whether `line` shows row `row` of the position: the row's label, a
/// blank, the eight cells from file `a` to file `h`, each followed by a
/// blank, and the label again.
pub open spec fn shows_rank(line: Seq<char>, p: Position, row: int) -> bool {
    exists|cells: Seq<Seq<char>>|
        {
            &&& cells.len() == 8
            &&& forall|file: int| 0 <= file < 8 ==> shows_cell(#[trigger] cells[file], cell(p, row, file))
            &&& line == seq![rank_label(row), ' '] + spaced(cells, 8) + seq![rank_label(row)]
        }
}

/// The figurine that stands for a piece, as a text of one character.
pub fn piece_symbol(piece: Piece) -> (symbol: &'static str)
    ensures
        symbol@ == seq![glyph(piece)],
{
    proof {
        reveal_strlit("♔");
        reveal_strlit("♕");
        reveal_strlit("♖");
        reveal_strlit("♗");
        reveal_strlit("♘");
        reveal_strlit("♙");
        reveal_strlit("♚");
        reveal_strlit("♛");
        reveal_strlit("♜");
        reveal_strlit("♝");
        reveal_strlit("♞");
        reveal_strlit("♟");
    }
    let symbol = match (piece.piece_type, piece.color) {
        (PieceType::King, PieceColor::White) => "♔",
        (PieceType::Queen, PieceColor::White) => "♕",
        (PieceType::Rook, PieceColor::White) => "♖",
        (PieceType::Bishop, PieceColor::White) => "♗",
        (PieceType::Knight, PieceColor::White) => "♘",
        (PieceType::Pawn, PieceColor::White) => "♙",
        (PieceType::King, PieceColor::Black) => "♚",
        (PieceType::Queen, PieceColor::Black) => "♛",
        (PieceType::Rook, PieceColor::Black) => "♜",
        (PieceType::Bishop, PieceColor::Black) => "♝",
        (PieceType::Knight, PieceColor::Black) => "♞",
        (PieceType::Pawn, PieceColor::Black) => "♟",
    };
    assert(symbol@ =~= seq![glyph(piece)]);
    symbol
}

/// `Colorize::white` of the crate `colored`, formatted into a `String`. The
/// crate decides by a switch of its own whether to colour at all. It sets
/// the switch from variables of the process and from the terminal, and
/// consults it more than once while it formats, so the result is one of
/// several forms of the text. This is claimed of a text that holds no
/// escape character; one that does may come back with more inserted.
#[verifier::external_body]
fn paint_white(text: &str) -> (shown: String)
    ensures
        !text@.contains('\x1b') ==> is_coloured(shown@, text@, '7'),
{
    text.white().to_string()
}

/// `Colorize::black` of the crate `colored`, formatted into a `String`. See
/// `paint_white`.
#[verifier::external_body]
fn paint_black(text: &str) -> (shown: String)
    ensures
        !text@.contains('\x1b') ==> is_coloured(shown@, text@, '0'),
{
    text.black().to_string()
}

/// Shows one cell of the board.
pub fn render_cell(content: Option<Piece>) -> (shown: String)
    ensures
        shows_cell(shown@, content),
{
    match content {
        Some(piece) => {
            let symbol = piece_symbol(piece);
            assert(!symbol@.contains('\x1b')) by {
                assert forall|i: int| 0 <= i < symbol@.len() implies symbol@[i] != '\x1b' by {
                    assert(symbol@[i] == glyph(piece));
                }
            }
            if piece.color == PieceColor::White {
                paint_white(symbol)
            } else {
                paint_black(symbol)
            }
        },
        None => {
            proof {
                reveal_strlit("·");
            }
            let shown = String::from_str("·");
            assert(shown@ =~= seq!['·']);
            shown
        },
    }
}

/// Cell texts added behind the first `n` do not change how those are joined.
proof fn lemma_spaced_prefix(cells: Seq<Seq<char>>, next: Seq<char>, n: int)
    requires
        0 <= n <= cells.len(),
    ensures
        spaced(cells.push(next), n) == spaced(cells, n),
    decreases n,
{
    if n > 0 {
        lemma_spaced_prefix(cells, next, n - 1);
    }
}

/// The line above and below the board that names the files.
pub open spec fn files_line() -> Seq<char> {
    "  a b c d e f g h"@
}

/// The line that frames the board.
pub open spec fn frame_line() -> Seq<char> {
    "  ─────────────"@
}

impl Board {
    /// Shows one row of the board as a line of text.
    fn render_rank(&self, row: usize) -> (line: String)
        requires
            row < 8,
        ensures
            shows_rank(line@, self@, row as int),
    {
        proof {
            reveal_strlit(" ");
        }
        let label = rank_digit(row);
        let mut line = String::from_str(label);
        line.append(" ");
        let ghost mut cells: Seq<Seq<char>> = Seq::empty();
        let mut file: usize = 0;
        assert(line@ =~= seq![rank_label(row as int), ' '] + spaced(cells, 0));
        while file < 8
            invariant
                row < 8,
                file <= 8,
                " "@ == seq![' '],
                cells.len() == file,
                forall|f: int|
                    0 <= f < file ==> shows_cell(#[trigger] cells[f], cell(self@, row as int, f)),
                line@ == seq![rank_label(row as int), ' '] + spaced(cells, file as int),
            decreases 8 - file,
        {
            let shown = render_cell(self.squares[row * 8 + file]);
            line.append(shown.as_str());
            line.append(" ");
            proof {
                lemma_spaced_prefix(cells, shown@, file as int);
                cells = cells.push(shown@);
                assert(line@ =~= seq![rank_label(row as int), ' '] + spaced(cells, file + 1));
            }
            file += 1;
        }
        line.append(label);
        assert(line@ =~= seq![rank_label(row as int), ' '] + spaced(cells, 8) + seq![
            rank_label(row as int),
        ]);
        line
    }

    /// Shows the board as twelve lines of text: the files, a frame, the
    /// eight rows from rank 8 down to rank 1, the frame and the files again.
    pub fn render(&self) -> (lines: Vec<String>)
        ensures
            lines@.len() == 12,
            lines@[0]@ == files_line(),
            lines@[1]@ == frame_line(),
            forall|row: int| 0 <= row < 8 ==> shows_rank(#[trigger] lines@[2 + row]@, self@, row),
            lines@[10]@ == frame_line(),
            lines@[11]@ == files_line(),
    {
        let mut lines: Vec<String> = Vec::new();
        lines.push(String::from_str("  a b c d e f g h"));
        lines.push(String::from_str("  ─────────────"));
        let mut row: usize = 0;
        while row < 8
            invariant
                row <= 8,
                lines@.len() == 2 + row,
                lines@[0]@ == files_line(),
                lines@[1]@ == frame_line(),
                forall|r: int| 0 <= r < row ==> shows_rank(#[trigger] lines@[2 + r]@, self@, r),
            decreases 8 - row,
        {
            let line = self.render_rank(row);
            lines.push(line);
            row += 1;
        }
        lines.push(String::from_str("  ─────────────"));
        lines.push(String::from_str("  a b c d e f g h"));
        lines
    }
}

} // verus!
