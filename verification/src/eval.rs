use crate::board::{piece_on, Board, Position};
use crate::moves::{awaits_promotion, promoted};
use crate::piece::{PieceColor, PieceType};
use crate::rules::legal;
use crate::square::Square;
use vstd::prelude::*;

verus! {

/// Positional bonus of a pawn on each cell, read from the pawn's own side of
/// the board.
pub const PAWN_TABLE: [i8; 64] = [
    0, 0, 0, 0, 0, 0, 0, 0,
    50, 50, 50, 50, 50, 50, 50, 50,
    10, 10, 20, 30, 30, 20, 10, 10,
    5, 5, 10, 25, 25, 10, 5, 5,
    0, 0, 0, 20, 20, 0, 0, 0,
    5, -5, -10, 0, 0, -10, -5, 5,
    5, 10, 10, -20, -20, 10, 10, 5,
    0, 0, 0, 0, 0, 0, 0, 0,
];

/// Positional bonus of a knight on each cell.
pub const KNIGHT_TABLE: [i8; 64] = [
    -50, -40, -30, -30, -30, -30, -40, -50,
    -40, -20, 0, 0, 0, 0, -20, -40,
    -30, 0, 10, 15, 15, 10, 0, -30,
    -30, 5, 15, 20, 20, 15, 5, -30,
    -30, 0, 15, 20, 20, 15, 0, -30,
    -30, 5, 10, 15, 15, 10, 5, -30,
    -40, -20, 0, 5, 5, 0, -20, -40,
    -50, -40, -30, -30, -30, -30, -40, -50,
];

/// Positional bonus of a bishop on each cell.
pub const BISHOP_TABLE: [i8; 64] = [
    -20, -10, -10, -10, -10, -10, -10, -20,
    -10, 0, 0, 0, 0, 0, 0, -10,
    -10, 0, 5, 10, 10, 5, 0, -10,
    -10, 5, 5, 10, 10, 5, 5, -10,
    -10, 0, 10, 10, 10, 10, 0, -10,
    -10, 10, 10, 10, 10, 10, 10, -10,
    -10, 5, 0, 0, 0, 0, 5, -10,
    -20, -10, -10, -10, -10, -10, -10, -20,
];

/// Positional bonus of a rook on each cell.
pub const ROOK_TABLE: [i8; 64] = [
    0, 0, 0, 0, 0, 0, 0, 0,
    5, 10, 10, 10, 10, 10, 10, 5,
    -5, 0, 0, 0, 0, 0, 0, -5,
    -5, 0, 0, 0, 0, 0, 0, -5,
    -5, 0, 0, 0, 0, 0, 0, -5,
    -5, 0, 0, 0, 0, 0, 0, -5,
    -5, 0, 0, 0, 0, 0, 0, -5,
    0, 0, 0, 5, 5, 0, 0, 0,
];

/// Positional bonus of a queen on each cell.
pub const QUEEN_TABLE: [i8; 64] = [
    -20, -10, -10, -5, -5, -10, -10, -20,
    -10, 0, 0, 0, 0, 0, 0, -10,
    -10, 0, 5, 5, 5, 5, 0, -10,
    -5, 0, 5, 5, 5, 5, 0, -5,
    0, 0, 5, 5, 5, 5, 0, -5,
    -10, 5, 5, 5, 5, 5, 0, -10,
    -10, 0, 5, 0, 0, 0, 0, -10,
    -20, -10, -10, -5, -5, -10, -10, -20,
];

/// Positional bonus of a king on each cell.
pub const KING_TABLE: [i8; 64] = [
    -30, -40, -40, -50, -50, -40, -40, -30,
    -30, -40, -40, -50, -50, -40, -40, -30,
    -30, -40, -40, -50, -50, -40, -40, -30,
    -30, -40, -40, -50, -50, -40, -40, -30,
    -20, -30, -30, -40, -40, -30, -30, -20,
    -10, -20, -20, -20, -20, -20, -20, -10,
    20, 20, 0, 0, 0, 0, 20, 20,
    20, 30, 10, 0, 0, 10, 30, 20,
];

/// No position scores above this, or below its negative.
pub const SCORE_LIMIT: i32 = 1_329_152;

/// The material value of a kind of piece.
pub open spec fn material(kind: PieceType) -> int {
    match kind {
        PieceType::Pawn => 100,
        PieceType::Knight => 320,
        PieceType::Bishop => 330,
        PieceType::Rook => 500,
        PieceType::Queen => 900,
        PieceType::King => 20000,
    }
}

/// The entry of a kind's piece-square table at table position `i`.
pub open spec fn table_value(kind: PieceType, i: int) -> int {
    match kind {
        PieceType::Pawn => PAWN_TABLE[i] as int,
        PieceType::Knight => KNIGHT_TABLE[i] as int,
        PieceType::Bishop => BISHOP_TABLE[i] as int,
        PieceType::Rook => ROOK_TABLE[i] as int,
        PieceType::Queen => QUEEN_TABLE[i] as int,
        PieceType::King => KING_TABLE[i] as int,
    }
}

/// Where a piece on grid position `i` reads its table: at `i` when it
/// belongs to the side the position is scored for, and at the vertical
/// mirror image of `i` when it belongs to the other side.
pub open spec fn table_index(i: int, own: bool) -> int {
    if own {
        i
    } else {
        (7 - i / 8) * 8 + i % 8
    }
}

/// How many of the first `n` grid positions are legal destinations for the
/// piece on `from`.
pub open spec fn legal_count(p: Position, from: Square, n: int) -> int
    decreases n,
{
    if n <= 0 {
        0
    } else {
        legal_count(p, from, n - 1) + if legal(p, from, Square::at_index(n - 1)) {
            1int
        } else {
            0int
        }
    }
}

/// The mobility of the piece on `from`: the number of squares it can
/// legally move to.
pub open spec fn mobility(p: Position, from: Square) -> int {
    legal_count(p, from, 64)
}

/// What grid position `i` adds to the score of a position seen from
/// `perspective`. A piece of that side adds its material value, its
/// positional bonus and its mobility bonus of 10 per legal destination. A
/// piece of the other side has a mobility bonus of minus 10 per legal
/// destination, and takes away its material value plus its positional bonus
/// minus its mobility bonus.
pub open spec fn cell_score(p: Position, perspective: PieceColor, i: int) -> int {
    match p[i] {
        None => 0,
        Some(piece) => {
            let own = piece.color == perspective;
            let piece_value = material(piece.piece_type);
            let position_value = table_value(piece.piece_type, table_index(i, own));
            let count = mobility(p, Square::at_index(i));
            if own {
                piece_value + position_value + 10 * count
            } else {
                -(piece_value + position_value - (-(10 * count)))
            }
        },
    }
}

/// The sum of what the first `n` grid positions add to the score.
pub open spec fn score_upto(p: Position, perspective: PieceColor, n: int) -> int
    decreases n,
{
    if n <= 0 {
        0
    } else {
        score_upto(p, perspective, n - 1) + cell_score(p, perspective, n - 1)
    }
}

/// The static score of a position from the point of view of `perspective`:
/// higher is better for that side.
pub open spec fn evaluate(p: Position, perspective: PieceColor) -> int {
    score_upto(p, perspective, 64)
}

/// A count of legal destinations among the first `n` grid positions lies
/// between 0 and `n`.
pub proof fn lemma_legal_count_bounds(p: Position, from: Square, n: int)
    requires
        0 <= n,
    ensures
        0 <= legal_count(p, from, n) <= n,
    decreases n,
{
    if n > 0 {
        lemma_legal_count_bounds(p, from, n - 1);
    }
}

/// No cell adds to, or takes from, the score more than a king's worth, the
/// largest table entry and the mobility of a piece that could go anywhere.
pub proof fn lemma_cell_score_bounds(p: Position, perspective: PieceColor, i: int)
    requires
        0 <= i < 64,
    ensures
        -20768 <= cell_score(p, perspective, i) <= 20768,
{
    lemma_legal_count_bounds(p, Square::at_index(i), 64);
}

/// The score of the first `n` cells is bounded in proportion to `n`.
pub proof fn lemma_score_upto_bounds(p: Position, perspective: PieceColor, n: int)
    requires
        0 <= n <= 64,
    ensures
        -20768 * n <= score_upto(p, perspective, n) <= 20768 * n,
    decreases n,
{
    if n > 0 {
        lemma_score_upto_bounds(p, perspective, n - 1);
        lemma_cell_score_bounds(p, perspective, n - 1);
    }
}

/// Every position scores within `SCORE_LIMIT` of zero.
pub proof fn lemma_evaluate_bounds(p: Position, perspective: PieceColor)
    ensures
        -SCORE_LIMIT <= evaluate(p, perspective) <= SCORE_LIMIT,
{
    lemma_score_upto_bounds(p, perspective, 64);
}

/// The material value of a kind of piece.
pub fn piece_value(kind: PieceType) -> (v: i32)
    ensures
        v == material(kind),
{
    match kind {
        PieceType::Pawn => 100,
        PieceType::Knight => 320,
        PieceType::Bishop => 330,
        PieceType::Rook => 500,
        PieceType::Queen => 900,
        PieceType::King => 20000,
    }
}

/// The positional bonus of a piece of kind `kind` on grid position `i`,
/// which belongs to the side the position is scored for if `own` is set.
/// Off the grid there is no bonus.
pub fn position_value(kind: PieceType, i: usize, own: bool) -> (v: i32)
    ensures
        v == if i < 64 {
            table_value(kind, table_index(i as int, own))
        } else {
            0
        },
        -128 <= v <= 127,
{
    if i >= 64 {
        return 0;
    }
    let idx = if own {
        i
    } else {
        (7 - i / 8) * 8 + i % 8
    };
    let entry = match kind {
        PieceType::Pawn => PAWN_TABLE[idx],
        PieceType::Knight => KNIGHT_TABLE[idx],
        PieceType::Bishop => BISHOP_TABLE[idx],
        PieceType::Rook => ROOK_TABLE[idx],
        PieceType::Queen => QUEEN_TABLE[idx],
        PieceType::King => KING_TABLE[idx],
    };
    entry as i32
}

/// An automated player: the side it plays.
#[derive(Clone, Copy, Debug, PartialEq, Eq, Structural)]
pub struct ChessAI {
    pub color: PieceColor,
}

impl ChessAI {
    pub fn new(color: PieceColor) -> (ai: ChessAI)
        ensures
            ai.color == color,
    {
        ChessAI { color }
    }

    /// The number of squares that the piece on `from` can legally move to.
    pub fn count_legal_moves(&self, board: &Board, from: Square) -> (count: usize)
        ensures
            count == mobility(board@, from),
            count <= 64,
    {
        let mut count: usize = 0;
        let mut j: usize = 0;
        while j < 64
            invariant
                j <= 64,
                count == legal_count(board@, from, j as int),
                count <= j,
            decreases 64 - j,
        {
            if board.is_legal(from, Square::from_index(j)) {
                count += 1;
            }
            j += 1;
        }
        count
    }

    /// The static score of the board from this player's point of view:
    /// material, positional bonus and mobility of every piece, added for its
    /// own pieces and taken away for the opponent's.
    pub fn evaluate_position(&self, board: &Board) -> (score: i32)
        ensures
            score == evaluate(board@, self.color),
            -SCORE_LIMIT <= score <= SCORE_LIMIT,
    {
        let mut score: i32 = 0;
        let mut i: usize = 0;
        while i < 64
            invariant
                i <= 64,
                score == score_upto(board@, self.color, i as int),
                -20768 * i <= score <= 20768 * i,
            decreases 64 - i,
        {
            proof {
                lemma_cell_score_bounds(board@, self.color, i as int);
            }
            if let Some(piece) = board.squares[i] {
                let own = piece.color == self.color;
                let position_value = position_value(piece.piece_type, i, own);
                let piece_value = piece_value(piece.piece_type);
                let count = self.count_legal_moves(board, Square::from_index(i)) as i32;
                let mobility_bonus = if own {
                    count * 10
                } else {
                    -(count * 10)
                };
                if own {
                    score += piece_value + position_value + mobility_bonus;
                } else {
                    score -= piece_value + position_value - mobility_bonus;
                }
            }
            i += 1;
        }
        score
    }
}

/// A promoted piece is scored as what it became: on the square where a
/// pawn of `perspective` was promoted, the score counts the material value
/// and the table of the new kind, and the mobility that the new piece has
/// in the new position. For a pawn of the other side the same sum is taken
/// away, with the table read mirrored.
pub proof fn lemma_promoted_piece_score(
    p: Position,
    at: Square,
    kind: PieceType,
    perspective: PieceColor,
)
    requires
        p.len() == 64,
        awaits_promotion(p, at),
    ensures
        cell_score(promoted(p, at, kind), perspective, at.index()) == if piece_on(p, at)->0.color
            == perspective {
            material(kind) + table_value(kind, at.index()) + 10 * mobility(
                promoted(p, at, kind),
                at,
            )
        } else {
            -(material(kind) + table_value(kind, table_index(at.index(), false)) + 10 * mobility(
                promoted(p, at, kind),
                at,
            ))
        },
{
    assert(Square::at_index(at.index()) == at);
}

} // verus!
