use crate::board::{lemma_piece_on_grid, piece_on, relocate, Board, Position};
use crate::moves::{awaits_promotion, successor};
use crate::piece::{Piece, PieceColor, PieceType};
use crate::rules::{in_check, legal, lemma_check_after_change};
use crate::search::{
    candidate, candidates, is_move_of, legal_moves, lemma_legal_moves_are_legal, move_filter,
};
use crate::square::Square;
use vstd::prelude::*;

verus! {

/// Whether the piece on grid position `i` belongs to `color` and has a legal
/// move to grid position `j` after which the king of `color` is not
/// attacked.
pub open spec fn escapes(p: Position, color: PieceColor, i: int, j: int) -> bool {
    &&& 0 <= i < 64
    &&& 0 <= j < 64
    &&& p[i] matches Some(piece)
    &&& piece.color == color
    &&& legal(p, Square::at_index(i), Square::at_index(j))
    &&& !in_check(successor(p, Square::at_index(i), Square::at_index(j)), color)
}

/// Whether `color` has a legal move that leaves its king unattacked.
pub open spec fn has_escape(p: Position, color: PieceColor) -> bool {
    exists|i: int, j: int| escapes(p, color, i, j)
}

/// Checkmate: the king of `color` is attacked and no legal move of `color`
/// ends the attack.
pub open spec fn checkmate(p: Position, color: PieceColor) -> bool {
    in_check(p, color) && !has_escape(p, color)
}

/// Stalemate: the king of `color` is not attacked, and `color` has no legal
/// move that keeps it so.
pub open spec fn stalemate(p: Position, color: PieceColor) -> bool {
    !in_check(p, color) && !has_escape(p, color)
}

impl Board {
    /// Whether `color` has a legal move that leaves its king unattacked.
    /// Every piece of `color` is tried against every square of the board.
    pub fn can_escape(&self, color: PieceColor) -> (r: bool)
        ensures
            r == has_escape(self@, color),
    {
        let mut i: usize = 0;
        while i < 64
            invariant
                i <= 64,
                forall|a: int, b: int| 0 <= a < i ==> !escapes(self@, color, a, b),
            decreases 64 - i,
        {
            let own = match self.squares[i] {
                Some(piece) => piece.color == color,
                None => false,
            };
            if own {
                let from = Square::from_index(i);
                let mut j: usize = 0;
                while j < 64
                    invariant
                        i < 64,
                        j <= 64,
                        from == Square::at_index(i as int),
                        self@[i as int] matches Some(piece) && piece.color == color,
                        forall|a: int, b: int| 0 <= a < i ==> !escapes(self@, color, a, b),
                        forall|b: int| 0 <= b < j ==> !escapes(self@, color, i as int, b),
                    decreases 64 - j,
                {
                    let to = Square::from_index(j);
                    if self.is_legal(from, to) {
                        let mut new_board = *self;
                        if new_board.apply_move(from, to) {
                            if !new_board.is_king_in_check(color) {
                                assert(escapes(self@, color, i as int, j as int));
                                return true;
                            }
                        }
                    }
                    j += 1;
                }
            }
            i += 1;
        }
        false
    }

    /// Whether `color` is checkmated.
    pub fn is_checkmate(&self, color: PieceColor) -> (r: bool)
        ensures
            r == checkmate(self@, color),
    {
        if !self.is_king_in_check(color) {
            return false;
        }
        !self.can_escape(color)
    }

    /// Whether `color` is stalemated.
    pub fn is_stalemate(&self, color: PieceColor) -> (r: bool)
        ensures
            r == stalemate(self@, color),
    {
        if self.is_king_in_check(color) {
            return false;
        }
        !self.can_escape(color)
    }
}

/// A legal move keeps the mover's king out of check in the position that
/// follows it, whether or not a pawn is promoted on arrival.
pub proof fn lemma_legal_move_is_safe(p: Position, from: Square, to: Square)
    requires
        p.len() == 64,
        legal(p, from, to),
    ensures
        !in_check(successor(p, from, to), piece_on(p, from)->0.color),
{
    let moved = relocate(p, from, to);
    let mover = piece_on(p, from)->0;
    assert(moved[to.index()] == Some(mover));
    if awaits_promotion(moved, to) {
        lemma_check_after_change(
            moved,
            to.index(),
            Piece { piece_type: PieceType::Queen, color: mover.color },
        );
    }
}

/// A side can escape exactly when it has a legal move: the moves that the
/// search chooses among are the moves that the detector looks for.
pub proof fn lemma_escape_iff_legal_move(p: Position, color: PieceColor)
    requires
        p.len() == 64,
    ensures
        has_escape(p, color) <==> legal_moves(p, color).len() > 0,
{
    if has_escape(p, color) {
        let (i, j) = choose|i: int, j: int| escapes(p, color, i, j);
        lemma_piece_on_grid(p, i);
        let k = i * 64 + j;
        assert(k / 64 == i && k % 64 == j);
        assert(candidates()[k] == candidate(k));
        assert(is_move_of(p, color, candidates()[k]));
        candidates().lemma_filter_contains(move_filter(p, color), k);
        assert(legal_moves(p, color).contains(candidates()[k]));
    }
    if legal_moves(p, color).len() > 0 {
        let m = legal_moves(p, color)[0];
        lemma_legal_moves_are_legal(p, color, 0);
        let i = m.from.index();
        let j = m.to.index();
        assert(Square::at_index(i) == m.from);
        assert(Square::at_index(j) == m.to);
        lemma_legal_move_is_safe(p, m.from, m.to);
        assert(escapes(p, color, i, j));
    }
}

/// The side to move has no legal move exactly when it is checkmated or
/// stalemated, and never both.
pub proof fn lemma_no_move_is_terminal(p: Position, color: PieceColor)
    requires
        p.len() == 64,
    ensures
        legal_moves(p, color).len() == 0 <==> checkmate(p, color) || stalemate(p, color),
        !(checkmate(p, color) && stalemate(p, color)),
{
    lemma_escape_iff_legal_move(p, color);
}

} // verus!
