use vstd::prelude::*;
use vstd::string::*;

verus! {

/// A square of the board as a pair of grid indices. `file` counts the files
/// `a` to `h` from 0; `row` counts the ranks from the top, so that rank 8 is
/// row 0 and rank 1 is row 7.
#[derive(Clone, Copy, Debug, PartialEq, Eq, Structural)]
pub struct Square {
    pub file: usize,
    pub row: usize,
}

/// A move: the square a piece leaves and the square it lands on.
#[derive(Clone, Copy, Debug, PartialEq, Eq, Structural)]
pub struct Move {
    pub from: Square,
    pub to: Square,
}

/// The square that two characters name, if they name one: a file letter
/// `a` to `h` followed by a rank digit `1` to `8`, and nothing else.
pub open spec fn parse_square(text: Seq<char>) -> Option<Square> {
    if text.len() == 2 && 'a' <= text[0] <= 'h' && '1' <= text[1] <= '8' {
        Some(
            Square {
                file: (text[0] as int - 'a' as int) as usize,
                row: (7 - (text[1] as int - '1' as int)) as usize,
            },
        )
    } else {
        None
    }
}

/// The two characters that name a square of the board.
pub open spec fn square_name(sq: Square) -> Seq<char> {
    seq![('a' as int + sq.file as int) as char, ('8' as int - sq.row as int) as char]
}

impl Square {
    /// Whether both indices lie on the 8x8 grid.
    pub open spec fn valid(self) -> bool {
        self.file < 8 && self.row < 8
    }

    /// The position of the square when the grid is read row by row from the top.
    pub open spec fn index(self) -> int {
        self.row as int * 8 + self.file as int
    }

    /// The square at grid position `i`, for `0 <= i < 64`.
    pub open spec fn at_index(i: int) -> Square {
        Square { file: (i % 8) as usize, row: (i / 8) as usize }
    }

    pub fn is_valid(&self) -> (r: bool)
        ensures
            r == self.valid(),
    {
        self.file < 8 && self.row < 8
    }

    /// The square at grid position `i`, counted row by row from the top left.
    pub fn from_index(i: usize) -> (sq: Square)
        ensures
            sq == Square::at_index(i as int),
            i < 64 ==> sq.valid() && sq.index() == i,
    {
        Square { file: i % 8, row: i / 8 }
    }

    /// The algebraic name of the square, or `None` for a pair of indices that
    /// is off the board.
    pub fn to_algebraic(&self) -> (r: Option<String>)
        ensures
            self.valid() <==> r is Some,
            r matches Some(name) ==> name@ == square_name(*self),
    {
        if self.file < 8 && self.row < 8 {
            let name = String::from_str(file_letter(self.file)).concat(rank_digit(self.row));
            assert(name@ =~= square_name(*self));
            Some(name)
        } else {
            None
        }
    }
}

fn file_letter(file: usize) -> (r: &'static str)
    requires
        file < 8,
    ensures
        r@ == seq![('a' as int + file as int) as char],
{
    proof {
        reveal_strlit("a");
        reveal_strlit("b");
        reveal_strlit("c");
        reveal_strlit("d");
        reveal_strlit("e");
        reveal_strlit("f");
        reveal_strlit("g");
        reveal_strlit("h");
    }
    let r = match file {
        0 => "a",
        1 => "b",
        2 => "c",
        3 => "d",
        4 => "e",
        5 => "f",
        6 => "g",
        _ => "h",
    };
    assert(r@ =~= seq![('a' as int + file as int) as char]);
    r
}

/// The digit that names a row of the board, as a text of one character.
pub(crate) fn rank_digit(row: usize) -> (r: &'static str)
    requires
        row < 8,
    ensures
        r@ == seq![('8' as int - row as int) as char],
{
    proof {
        reveal_strlit("1");
        reveal_strlit("2");
        reveal_strlit("3");
        reveal_strlit("4");
        reveal_strlit("5");
        reveal_strlit("6");
        reveal_strlit("7");
        reveal_strlit("8");
    }
    let r = match row {
        0 => "8",
        1 => "7",
        2 => "6",
        3 => "5",
        4 => "4",
        5 => "3",
        6 => "2",
        _ => "1",
    };
    assert(r@ =~= seq![('8' as int - row as int) as char]);
    r
}

/// Reads a square in algebraic notation. Anything but a file letter `a` to
/// `h` followed by a rank digit `1` to `8` is rejected.
pub fn parse_position(pos: &str) -> (r: Option<Square>)
    ensures
        r == parse_square(pos@),
        r matches Some(sq) ==> sq.valid(),
{
    if pos.unicode_len() != 2 {
        return None;
    }
    let file = pos.get_char(0);
    let rank = pos.get_char(1);
    if file < 'a' || file > 'h' || rank < '1' || rank > '8' {
        return None;
    }
    let x = (file as u8 - 'a' as u8) as usize;
    let y = (7 - (rank as u8 - '1' as u8)) as usize;
    Some(Square { file: x, row: y })
}

/// Naming a square of the board and reading the name back gives the square.
pub proof fn lemma_name_then_parse(sq: Square)
    requires
        sq.valid(),
    ensures
        parse_square(square_name(sq)) == Some(sq),
{
}

/// Reading a well-formed name and naming the square again gives the text
/// character for character; a text that is not well formed names no square.
pub proof fn lemma_parse_then_name(text: Seq<char>)
    ensures
        parse_square(text) matches Some(sq) ==> sq.valid() && square_name(sq) == text,
        parse_square(text) is None <==> !(text.len() == 2 && 'a' <= text[0] <= 'h' && '1'
            <= text[1] <= '8'),
{
    if parse_square(text) is Some {
        let sq = parse_square(text)->0;
        assert(square_name(sq) =~= text);
    }
}

} // verus!
