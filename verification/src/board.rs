use crate::piece::{Piece, PieceColor, PieceType};
use crate::square::Square;
use vstd::prelude::*;

verus! {

/// The mathematical picture of a board: its 64 cells read row by row from
/// the top (rank 8) down, each row from file `a` to file `h`.
pub type Position = Seq<Option<Piece>>;

/// What stands on the cell in row `row` and file `file`; nothing stands off
/// the grid.
pub open spec fn cell(p: Position, row: int, file: int) -> Option<Piece> {
    if 0 <= row < 8 && 0 <= file < 8 {
        p[row * 8 + file]
    } else {
        None
    }
}

/// What stands on a square.
pub open spec fn piece_on(p: Position, sq: Square) -> Option<Piece> {
    cell(p, sq.row as int, sq.file as int)
}

/// The kind of piece that starts on a given file of the back rank.
pub open spec fn back_rank_piece(file: int) -> PieceType {
    if file == 0 || file == 7 {
        PieceType::Rook
    } else if file == 1 || file == 6 {
        PieceType::Knight
    } else if file == 2 || file == 5 {
        PieceType::Bishop
    } else if file == 3 {
        PieceType::Queen
    } else {
        PieceType::King
    }
}

/// What the standard starting layout puts on grid position `i`, or `None`
/// where it puts nothing: Black on the two top rows, White on the two bottom
/// rows, pawns in front.
pub open spec fn initial_cell(i: int) -> Option<Piece> {
    let row = i / 8;
    let file = i % 8;
    if row == 0 {
        Some(Piece { piece_type: back_rank_piece(file), color: PieceColor::Black })
    } else if row == 1 {
        Some(Piece { piece_type: PieceType::Pawn, color: PieceColor::Black })
    } else if row == 6 {
        Some(Piece { piece_type: PieceType::Pawn, color: PieceColor::White })
    } else if row == 7 {
        Some(Piece { piece_type: back_rank_piece(file), color: PieceColor::White })
    } else {
        None
    }
}

/// The standard starting layout.
pub open spec fn initial_position() -> Position {
    Seq::new(64, |i: int| initial_cell(i))
}

/// The position after whatever stands on `from` is lifted and put down on
/// `to`, replacing what stood there.
pub open spec fn relocate(p: Position, from: Square, to: Square) -> Position {
    p.update(to.index(), p[from.index()]).update(from.index(), None)
}

/// An 8x8 board. Each cell holds one piece or none.
#[derive(Clone, Copy, Debug, PartialEq, Eq)]
pub struct Board {
    pub squares: [Option<Piece>; 64],
}

impl View for Board {
    type V = Position;

    open spec fn view(&self) -> Position {
        self.squares@
    }
}

impl Board {
    /// A board in the standard starting layout.
    pub fn new() -> (board: Board)
        ensures
            board@ == initial_position(),
    {
        let mut board = Board::empty();
        board.init_pieces();
        assert(board@ =~= initial_position());
        board
    }

    /// A board with no piece on it.
    pub fn empty() -> (board: Board)
        ensures
            board@.len() == 64,
            forall|i: int| 0 <= i < 64 ==> board@[i] is None,
    {
        Board { squares: [None;64] }
    }

    /// Sets up both sides' pieces on their starting squares. The four middle
    /// rows keep what they hold.
    pub fn init_pieces(&mut self)
        ensures
            final(self)@.len() == 64,
            forall|i: int|
                0 <= i < 64 ==> final(self)@[i] == if 16 <= i < 48 {
                    old(self)@[i]
                } else {
                    initial_cell(i)
                },
    {
        let white = PieceColor::White;
        let black = PieceColor::Black;
        self.squares[56] = Some(Piece { piece_type: PieceType::Rook, color: white });
        self.squares[57] = Some(Piece { piece_type: PieceType::Knight, color: white });
        self.squares[58] = Some(Piece { piece_type: PieceType::Bishop, color: white });
        self.squares[59] = Some(Piece { piece_type: PieceType::Queen, color: white });
        self.squares[60] = Some(Piece { piece_type: PieceType::King, color: white });
        self.squares[61] = Some(Piece { piece_type: PieceType::Bishop, color: white });
        self.squares[62] = Some(Piece { piece_type: PieceType::Knight, color: white });
        self.squares[63] = Some(Piece { piece_type: PieceType::Rook, color: white });

        self.squares[0] = Some(Piece { piece_type: PieceType::Rook, color: black });
        self.squares[1] = Some(Piece { piece_type: PieceType::Knight, color: black });
        self.squares[2] = Some(Piece { piece_type: PieceType::Bishop, color: black });
        self.squares[3] = Some(Piece { piece_type: PieceType::Queen, color: black });
        self.squares[4] = Some(Piece { piece_type: PieceType::King, color: black });
        self.squares[5] = Some(Piece { piece_type: PieceType::Bishop, color: black });
        self.squares[6] = Some(Piece { piece_type: PieceType::Knight, color: black });
        self.squares[7] = Some(Piece { piece_type: PieceType::Rook, color: black });

        let mut i: usize = 0;
        while i < 8
            invariant
                i <= 8,
                self@.len() == 64,
                forall|k: int|
                    0 <= k < 64 ==> self@[k] == if 16 <= k < 48 || 8 + i <= k < 16 || 48 + i <= k
                        < 56 {
                        old(self)@[k]
                    } else {
                        initial_cell(k)
                    },
            decreases 8 - i,
        {
            self.squares[8 + i] = Some(
                Piece { piece_type: PieceType::Pawn, color: PieceColor::Black },
            );
            self.squares[48 + i] = Some(
                Piece { piece_type: PieceType::Pawn, color: PieceColor::White },
            );
            i += 1;
        }
    }

    /// Whether a pair of signed coordinates lies on the grid.
    pub fn is_valid_position(x: i32, y: i32) -> (r: bool)
        ensures
            r == (0 <= x < 8 && 0 <= y < 8),
    {
        x >= 0 && x < 8 && y >= 0 && y < 8
    }

    /// What stands on a square; nothing stands off the board.
    pub fn piece_at(&self, sq: Square) -> (r: Option<Piece>)
        ensures
            r == piece_on(self@, sq),
    {
        if sq.file < 8 && sq.row < 8 {
            self.squares[sq.row * 8 + sq.file]
        } else {
            None
        }
    }

    /// Puts `content` on a square of the board, replacing what stood there.
    /// A square off the board changes nothing.
    pub fn set_piece(&mut self, sq: Square, content: Option<Piece>)
        ensures
            final(self)@ == if sq.valid() {
                old(self)@.update(sq.index(), content)
            } else {
                old(self)@
            },
    {
        if sq.file < 8 && sq.row < 8 {
            self.squares[sq.row * 8 + sq.file] = content;
        }
    }
}

/// The square at grid position `i` is on the board, and what stands on it
/// is cell `i` of the position.
pub proof fn lemma_piece_on_grid(p: Position, i: int)
    requires
        0 <= i < 64,
    ensures
        Square::at_index(i).valid(),
        Square::at_index(i).index() == i,
        piece_on(p, Square::at_index(i)) == p[i],
{
}

} // verus!
