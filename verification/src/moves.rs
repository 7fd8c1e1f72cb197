use crate::board::{piece_on, relocate, Board, Position};
use crate::piece::{Piece, PieceColor, PieceType};
use crate::rules::legal;
use crate::square::{parse_position, parse_square, Square};
use vstd::prelude::*;
use vstd::string::*;

verus! {

/// The row on which a side's pawns are promoted: the far end of the board.
pub open spec fn promotion_row(color: PieceColor) -> int {
    match color {
        PieceColor::White => 0,
        PieceColor::Black => 7,
    }
}

/// Whether a pawn stands on `sq` at the far end of the board, waiting to be
/// promoted.
pub open spec fn awaits_promotion(p: Position, sq: Square) -> bool {
    &&& sq.valid()
    &&& piece_on(p, sq) matches Some(piece)
    &&& piece.piece_type == PieceType::Pawn
    &&& sq.row as int == promotion_row(piece.color)
}

/// Whether a pawn may be promoted to this kind of piece.
pub open spec fn promotable(kind: PieceType) -> bool {
    kind == PieceType::Queen || kind == PieceType::Rook || kind == PieceType::Bishop || kind
        == PieceType::Knight
}

/// The position after the pawn waiting on `sq` has become a piece of kind
/// `kind` of its own side. Where no pawn waits on `sq`, nothing changes.
pub open spec fn promoted(p: Position, sq: Square, kind: PieceType) -> Position {
    if awaits_promotion(p, sq) {
        p.update(sq.index(), Some(Piece { piece_type: kind, color: piece_on(p, sq)->0.color }))
    } else {
        p
    }
}

/// The position that a move leads to when promotion is automatic: the piece
/// is relocated, and a pawn that thereby reaches the far end of the board
/// becomes a queen.
pub open spec fn successor(p: Position, from: Square, to: Square) -> Position {
    promoted(relocate(p, from, to), to, PieceType::Queen)
}

/// The kind of piece that an answer to the promotion menu asks for: `2` a
/// rook, `3` a bishop, `4` a knight, and anything else a queen.
pub open spec fn chosen_promotion(answer: Seq<char>) -> PieceType {
    if answer == seq!['2'] {
        PieceType::Rook
    } else if answer == seq!['3'] {
        PieceType::Bishop
    } else if answer == seq!['4'] {
        PieceType::Knight
    } else {
        PieceType::Queen
    }
}

/// How an attempt to move ended.
#[derive(Clone, Copy, Debug, PartialEq, Eq, Structural)]
pub enum MoveOutcome {
    /// The move is illegal; the board is unchanged.
    Rejected,
    /// The piece has moved and the turn is over.
    Moved,
    /// The piece has moved, and it is a pawn that now stands at the far end
    /// of the board: the mover has to say what it becomes.
    PromotionPending,
}

/// Reads an answer to the promotion menu.
pub fn promotion_choice(answer: &str) -> (kind: PieceType)
    ensures
        kind == chosen_promotion(answer@),
        promotable(kind),
{
    if answer.unicode_len() != 1 {
        return PieceType::Queen;
    }
    let c = answer.get_char(0);
    assert(answer@ =~= seq![c]);
    if c == '2' {
        PieceType::Rook
    } else if c == '3' {
        PieceType::Bishop
    } else if c == '4' {
        PieceType::Knight
    } else {
        PieceType::Queen
    }
}

impl Board {
    /// Turns a pawn that stands on `to` at the far end of the board into a
    /// queen of its side. Anything else is left as it is.
    pub fn check_pawn_promotion(&mut self, to: Square)
        ensures
            final(self)@ == promoted(old(self)@, to, PieceType::Queen),
    {
        let _ = self.promote(to, PieceType::Queen);
    }

    /// Turns the pawn that waits on `at` into a piece of kind `choice` of
    /// its side. Returns `false`, and changes nothing, when no pawn waits
    /// there or when a pawn cannot become that kind of piece.
    pub fn promote(&mut self, at: Square, choice: PieceType) -> (done: bool)
        ensures
            done == (awaits_promotion(old(self)@, at) && promotable(choice)),
            final(self)@ == if done {
                promoted(old(self)@, at, choice)
            } else {
                old(self)@
            },
    {
        match choice {
            PieceType::King | PieceType::Pawn => {
                return false;
            },
            _ => {},
        }
        if let Some(piece) = self.piece_at(at) {
            if piece.piece_type == PieceType::Pawn {
                if (piece.color == PieceColor::White && at.row == 0) || (piece.color
                    == PieceColor::Black && at.row == 7) {
                    self.squares[at.row * 8 + at.file] = Some(
                        Piece { piece_type: choice, color: piece.color },
                    );
                    return true;
                }
            }
        }
        false
    }

    /// Makes a move for a side that promotes without being asked: if the
    /// move is legal the piece is relocated, capturing what stood on `to`,
    /// and a pawn that reaches the far end of the board becomes a queen.
    /// An illegal move leaves the board unchanged.
    pub fn apply_move(&mut self, from: Square, to: Square) -> (done: bool)
        ensures
            done == legal(old(self)@, from, to),
            final(self)@ == if done {
                successor(old(self)@, from, to)
            } else {
                old(self)@
            },
    {
        if !self.is_legal(from, to) {
            return false;
        }
        self.squares[to.row * 8 + to.file] = self.squares[from.row * 8 + from.file];
        self.squares[from.row * 8 + from.file] = None;
        assert(self@ == relocate(old(self)@, from, to));
        self.check_pawn_promotion(to);
        true
    }

    /// Like `apply_move`, for two squares given in algebraic notation. A text
    /// that names no square makes the move illegal.
    pub fn make_move(&mut self, from: &str, to: &str) -> (done: bool)
        ensures
            done == match (parse_square(from@), parse_square(to@)) {
                (Some(a), Some(b)) => legal(old(self)@, a, b),
                _ => false,
            },
            final(self)@ == if done {
                successor(old(self)@, parse_square(from@)->0, parse_square(to@)->0)
            } else {
                old(self)@
            },
    {
        let a = match parse_position(from) {
            Some(sq) => sq,
            None => {
                return false;
            },
        };
        let b = match parse_position(to) {
            Some(sq) => sq,
            None => {
                return false;
            },
        };
        self.apply_move(a, b)
    }

    /// Makes a move for a side that chooses its promotions: if the move is
    /// legal the piece is relocated, capturing what stood on `to`. Where that
    /// brings a pawn to the far end of the board the pawn is left standing
    /// there and the outcome is `PromotionPending`; `promote` then takes the
    /// choice. An illegal move leaves the board unchanged.
    pub fn begin_move(&mut self, from: Square, to: Square) -> (outcome: MoveOutcome)
        ensures
            outcome == MoveOutcome::Rejected <==> !legal(old(self)@, from, to),
            outcome == MoveOutcome::PromotionPending <==> legal(old(self)@, from, to)
                && awaits_promotion(relocate(old(self)@, from, to), to),
            final(self)@ == if legal(old(self)@, from, to) {
                relocate(old(self)@, from, to)
            } else {
                old(self)@
            },
    {
        if !self.is_legal(from, to) {
            return MoveOutcome::Rejected;
        }
        self.squares[to.row * 8 + to.file] = self.squares[from.row * 8 + from.file];
        self.squares[from.row * 8 + from.file] = None;
        assert(self@ == relocate(old(self)@, from, to));
        let pending = match self.piece_at(to) {
            Some(piece) => piece.piece_type == PieceType::Pawn && ((piece.color
                == PieceColor::White && to.row == 0) || (piece.color == PieceColor::Black
                && to.row == 7)),
            None => false,
        };
        if pending {
            MoveOutcome::PromotionPending
        } else {
            MoveOutcome::Moved
        }
    }
}

/// A pawn that a legal move brings to the far end of the board stands there
/// as a queen of its own side in the position that follows, and every other
/// cell is as the relocation left it. A move that brings no pawn there is a
/// plain relocation.
pub proof fn lemma_promotion_on_arrival(p: Position, from: Square, to: Square)
    requires
        p.len() == 64,
        legal(p, from, to),
    ensures
        piece_on(p, from) matches Some(piece) && (if piece.piece_type == PieceType::Pawn
            && to.row as int == promotion_row(piece.color) {
            &&& piece_on(successor(p, from, to), to) == Some(
                Piece { piece_type: PieceType::Queen, color: piece.color },
            )
            &&& forall|i: int|
                0 <= i < 64 && i != to.index() ==> successor(p, from, to)[i] == relocate(
                    p,
                    from,
                    to,
                )[i]
        } else {
            successor(p, from, to) == relocate(p, from, to)
        }),
{
}

} // verus!
