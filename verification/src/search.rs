use crate::board::{lemma_piece_on_grid, piece_on, Board, Position};
use crate::eval::{evaluate, lemma_evaluate_bounds, ChessAI, SCORE_LIMIT};
use crate::moves::successor;
use crate::piece::PieceColor;
use crate::rules::legal;
use crate::square::{Move, Square};
use vstd::prelude::*;

verus! {

/// The depth, in plies, to which an automated player looks ahead.
pub const MAX_DEPTH: u32 = 3;

/// The score of a position in which the searching side is to move and has
/// no legal move.
pub const NO_MOVE_SCORE: i32 = -1000;

/// The move whose number is `k` when all pairs of squares are counted in
/// order of the square left, then of the square reached.
pub open spec fn candidate(k: int) -> Move {
    Move { from: Square::at_index(k / 64), to: Square::at_index(k % 64) }
}

/// All 4096 pairs of squares, in order of the square left, then of the
/// square reached.
pub open spec fn candidates() -> Seq<Move> {
    Seq::new(4096, |k: int| candidate(k))
}

/// Whether `m` is a legal move of a piece of `color`.
pub open spec fn is_move_of(p: Position, color: PieceColor, m: Move) -> bool {
    &&& piece_on(p, m.from) matches Some(piece)
    &&& piece.color == color
    &&& legal(p, m.from, m.to)
}

/// The test that picks the legal moves of `color` out of all pairs of squares.
pub open spec fn move_filter(p: Position, color: PieceColor) -> spec_fn(Move) -> bool {
    |m: Move| is_move_of(p, color, m)
}

/// The legal moves of `color`, in the order of `candidates`.
pub open spec fn legal_moves(p: Position, color: PieceColor) -> Seq<Move> {
    candidates().filter(move_filter(p, color))
}

/// The side that moves at a node of the search tree of the player `ai`: the
/// player itself at a maximizing node, its opponent at a minimizing one.
pub open spec fn side_to_move(ai: PieceColor, maximizing: bool) -> PieceColor {
    if maximizing {
        ai
    } else {
        ai.other()
    }
}

/// The score of a node at which the side to move has no legal move.
pub open spec fn stuck_score(maximizing: bool) -> int {
    if maximizing {
        -1000
    } else {
        1000
    }
}

/// The score before any reply was looked at: below every score at a
/// maximizing node, above every score at a minimizing one.
pub open spec fn worst_score(maximizing: bool) -> int {
    if maximizing {
        i32::MIN as int
    } else {
        i32::MAX as int
    }
}

/// The better of two scores for the side that moves at the node.
pub open spec fn better(maximizing: bool, a: int, b: int) -> int {
    if maximizing {
        if a >= b {
            a
        } else {
            b
        }
    } else {
        if a <= b {
            a
        } else {
            b
        }
    }
}

/// The value of a position by plain minimax to `depth` plies, seen from the
/// player `ai`: the static score at depth 0; the fixed score of a side that
/// cannot move; else the best, for the side to move, of the values of the
/// positions its legal moves lead to.
pub open spec fn minimax_value(p: Position, ai: PieceColor, depth: nat, maximizing: bool) -> int
    decreases depth, 0nat, 0nat,
{
    if depth == 0 {
        evaluate(p, ai)
    } else {
        let moves = legal_moves(p, side_to_move(ai, maximizing));
        if moves.len() == 0 {
            stuck_score(maximizing)
        } else {
            best_reply(p, ai, (depth - 1) as nat, maximizing, moves, moves.len())
        }
    }
}

/// The best, for the side that moves at the node, of the values of the
/// first `n` moves of `moves`, each looked at `below` plies deep.
pub open spec fn best_reply(
    p: Position,
    ai: PieceColor,
    below: nat,
    maximizing: bool,
    moves: Seq<Move>,
    n: nat,
) -> int
    decreases below, 1nat, n,
{
    if n == 0 {
        worst_score(maximizing)
    } else {
        let m = moves[n - 1];
        better(
            maximizing,
            best_reply(p, ai, below, maximizing, moves, (n - 1) as nat),
            minimax_value(successor(p, m.from, m.to), ai, below, !maximizing),
        )
    }
}

/// Whether the search stops looking at further replies once the best score
/// so far is `best`.
pub open spec fn cuts_off(maximizing: bool, alpha: int, beta: int, best: int) -> bool {
    if maximizing {
        best >= beta
    } else {
        best <= alpha
    }
}

/// The value that the pruning search gives a position: as `minimax_value`,
/// but the replies are looked at in order and the rest are skipped once the
/// best score so far reaches `beta` at a maximizing node, or `alpha` at a
/// minimizing one. Both bounds are handed down unchanged.
pub open spec fn search_value(
    p: Position,
    ai: PieceColor,
    depth: nat,
    alpha: int,
    beta: int,
    maximizing: bool,
) -> int
    decreases depth, 0nat, 0nat,
{
    if depth == 0 {
        evaluate(p, ai)
    } else {
        let moves = legal_moves(p, side_to_move(ai, maximizing));
        if moves.len() == 0 {
            stuck_score(maximizing)
        } else {
            scan_replies(
                p,
                ai,
                (depth - 1) as nat,
                alpha,
                beta,
                maximizing,
                moves,
                0,
                worst_score(maximizing),
            )
        }
    }
}

/// What the pruning search makes of the moves from number `k` on, given the
/// best score `best` of the moves before.
pub open spec fn scan_replies(
    p: Position,
    ai: PieceColor,
    below: nat,
    alpha: int,
    beta: int,
    maximizing: bool,
    moves: Seq<Move>,
    k: nat,
    best: int,
) -> int
    decreases below, 1nat, moves.len() - k,
{
    if k >= moves.len() {
        best
    } else {
        let m = moves[k as int];
        let value = search_value(successor(p, m.from, m.to), ai, below, alpha, beta, !maximizing);
        let improved = better(maximizing, best, value);
        if cuts_off(maximizing, alpha, beta, improved) {
            improved
        } else {
            scan_replies(p, ai, below, alpha, beta, maximizing, moves, k + 1, improved)
        }
    }
}

/// Candidate number `i * 64 + j` goes from grid position `i` to grid
/// position `j`.
proof fn lemma_candidate_number(i: int, j: int)
    requires
        0 <= i < 64,
        0 <= j < 64,
    ensures
        candidate(i * 64 + j) == (Move { from: Square::at_index(i), to: Square::at_index(j) }),
{
    assert((i * 64 + j) / 64 == i);
    assert((i * 64 + j) % 64 == j);
}

/// The legal moves among the first `k` candidates, followed by candidate `k`
/// if it is legal, are the legal moves among the first `k + 1`.
proof fn lemma_filter_step(p: Position, color: PieceColor, k: int)
    requires
        0 <= k < 4096,
    ensures
        candidates().take(k + 1).filter(move_filter(p, color)) == if is_move_of(
            p,
            color,
            candidate(k),
        ) {
            candidates().take(k).filter(move_filter(p, color)).push(candidate(k))
        } else {
            candidates().take(k).filter(move_filter(p, color))
        },
{
    reveal(Seq::filter);
    let longer = candidates().take(k + 1);
    assert(longer.drop_last() =~= candidates().take(k));
    assert(longer.last() == candidate(k));
}

/// A run of candidates none of which is a legal move adds nothing.
proof fn lemma_filter_skip(p: Position, color: PieceColor, a: int, b: int)
    requires
        0 <= a <= b <= 4096,
        forall|k: int| a <= k < b ==> !is_move_of(p, color, #[trigger] candidate(k)),
    ensures
        candidates().take(b).filter(move_filter(p, color)) == candidates().take(a).filter(
            move_filter(p, color),
        ),
    decreases b - a,
{
    if a < b {
        lemma_filter_skip(p, color, a, b - 1);
        lemma_filter_step(p, color, b - 1);
        assert(!is_move_of(p, color, candidate(b - 1)));
    }
}

/// Every move of `legal_moves` is a legal move of a piece of `color`
/// between two squares of the board.
pub proof fn lemma_legal_moves_are_legal(p: Position, color: PieceColor, k: int)
    requires
        0 <= k < legal_moves(p, color).len(),
    ensures
        is_move_of(p, color, legal_moves(p, color)[k]),
        legal_moves(p, color)[k].from.valid(),
        legal_moves(p, color)[k].to.valid(),
{
    candidates().lemma_filter_pred(move_filter(p, color), k);
}

impl Board {
    /// The legal moves of `color`: every piece of that side against every
    /// square of the board, in grid order of the square left, then of the
    /// square reached.
    pub fn legal_moves(&self, color: PieceColor) -> (moves: Vec<Move>)
        ensures
            moves@ == legal_moves(self@, color),
    {
        let mut moves: Vec<Move> = Vec::new();
        let mut i: usize = 0;
        assert(candidates().take(0).filter(move_filter(self@, color)) =~= Seq::<Move>::empty()) by {
            reveal(Seq::filter);
        }
        while i < 64
            invariant
                i <= 64,
                moves@ == candidates().take(i * 64).filter(move_filter(self@, color)),
            decreases 64 - i,
        {
            let own = match self.squares[i] {
                Some(piece) => piece.color == color,
                None => false,
            };
            if own {
                let from = Square::from_index(i);
                let mut j: usize = 0;
                while j < 64
                    invariant
                        i < 64,
                        j <= 64,
                        from == Square::at_index(i as int),
                        self@[i as int] matches Some(piece) && piece.color == color,
                        moves@ == candidates().take(i * 64 + j).filter(move_filter(self@, color)),
                    decreases 64 - j,
                {
                    let to = Square::from_index(j);
                    proof {
                        lemma_filter_step(self@, color, i * 64 + j);
                        lemma_candidate_number(i as int, j as int);
                        lemma_piece_on_grid(self@, i as int);
                    }
                    if self.is_legal(from, to) {
                        moves.push(Move { from, to });
                    }
                    j += 1;
                }
            } else {
                proof {
                    assert forall|k: int| i * 64 <= k < (i + 1) * 64 implies !is_move_of(
                        self@,
                        color,
                        #[trigger] candidate(k),
                    ) by {
                        lemma_candidate_number(i as int, k - i * 64);
                        lemma_piece_on_grid(self@, i as int);
                    }
                    lemma_filter_skip(self@, color, i * 64, (i + 1) * 64);
                }
            }
            i += 1;
        }
        assert(candidates().take(4096) =~= candidates());
        moves
    }
}

/// Whether the pruned value of a node stands for its plain minimax value
/// within the window from `alpha` to `beta`: inside the window the two are
/// equal, and a plain value at or beyond one bound has a pruned value at or
/// beyond the same bound.
pub open spec fn agrees_within(alpha: int, beta: int, pruned: int, plain: int) -> bool {
    &&& alpha < plain < beta ==> pruned == plain
    &&& plain <= alpha ==> pruned <= alpha
    &&& plain >= beta ==> pruned >= beta
}

/// The number of plies that the search looks below the moves it chooses
/// among.
pub open spec fn plies_below(depth: nat) -> nat {
    if depth == 0 {
        0
    } else {
        (depth - 1) as nat
    }
}

/// The value, for the player `ai`, of making the move `m`: the plain
/// minimax value of the position that follows, with the opponent to move.
pub open spec fn reply_value(p: Position, ai: PieceColor, depth: nat, m: Move) -> int {
    minimax_value(successor(p, m.from, m.to), ai, plies_below(depth), false)
}

/// Whether `m` is the move that a search to `depth` plies chooses for `ai`:
/// among the legal moves of `ai`, the first of those whose value no other
/// exceeds.
pub open spec fn is_best_move(p: Position, ai: PieceColor, depth: nat, m: Move) -> bool {
    let moves = legal_moves(p, ai);
    exists|k: int|
        {
            &&& 0 <= k < moves.len()
            &&& #[trigger] moves[k] == m
            &&& forall|j: int|
                0 <= j < moves.len() ==> reply_value(p, ai, depth, #[trigger] moves[j])
                    <= reply_value(p, ai, depth, m)
            &&& forall|j: int|
                0 <= j < k ==> reply_value(p, ai, depth, #[trigger] moves[j]) < reply_value(
                    p,
                    ai,
                    depth,
                    m,
                )
        }
}

/// The plain minimax value of every position is a score within
/// `SCORE_LIMIT` of zero.
pub proof fn lemma_minimax_bounds(p: Position, ai: PieceColor, depth: nat, maximizing: bool)
    ensures
        -SCORE_LIMIT <= minimax_value(p, ai, depth, maximizing) <= SCORE_LIMIT,
    decreases depth, 0nat, 0nat,
{
    if depth == 0 {
        lemma_evaluate_bounds(p, ai);
    } else {
        let moves = legal_moves(p, side_to_move(ai, maximizing));
        if moves.len() > 0 {
            lemma_best_reply_bounds(p, ai, (depth - 1) as nat, maximizing, moves, moves.len());
        }
    }
}

/// The best of one or more replies is a score within `SCORE_LIMIT` of zero.
pub proof fn lemma_best_reply_bounds(
    p: Position,
    ai: PieceColor,
    below: nat,
    maximizing: bool,
    moves: Seq<Move>,
    n: nat,
)
    requires
        n >= 1,
    ensures
        -SCORE_LIMIT <= best_reply(p, ai, below, maximizing, moves, n) <= SCORE_LIMIT,
    decreases below, 1nat, n,
{
    let m = moves[n - 1];
    lemma_minimax_bounds(successor(p, m.from, m.to), ai, below, !maximizing);
    if n > 1 {
        lemma_best_reply_bounds(p, ai, below, maximizing, moves, (n - 1) as nat);
    } else {
        assert(best_reply(p, ai, below, maximizing, moves, 0) == worst_score(maximizing));
    }
}

/// Looking at more replies never makes the best of them worse for the side
/// to move.
proof fn lemma_best_reply_monotone(
    p: Position,
    ai: PieceColor,
    below: nat,
    maximizing: bool,
    moves: Seq<Move>,
    k: nat,
    n: nat,
)
    requires
        k <= n,
    ensures
        better(
            maximizing,
            best_reply(p, ai, below, maximizing, moves, k),
            best_reply(p, ai, below, maximizing, moves, n),
        ) == best_reply(p, ai, below, maximizing, moves, n),
    decreases n - k,
{
    if k < n {
        lemma_best_reply_monotone(p, ai, below, maximizing, moves, k, (n - 1) as nat);
    }
}

/// Alpha-beta pruning is sound: within the window the pruning search finds
/// the plain minimax value of a position, and where the plain value lies at
/// or beyond a bound the pruned value lies at or beyond the same bound.
pub proof fn lemma_pruning_sound(
    p: Position,
    ai: PieceColor,
    depth: nat,
    alpha: int,
    beta: int,
    maximizing: bool,
)
    requires
        i32::MIN <= alpha < beta <= i32::MAX,
    ensures
        agrees_within(
            alpha,
            beta,
            search_value(p, ai, depth, alpha, beta, maximizing),
            minimax_value(p, ai, depth, maximizing),
        ),
    decreases depth, 0nat, 0nat,
{
    if depth > 0 {
        let moves = legal_moves(p, side_to_move(ai, maximizing));
        if moves.len() > 0 {
            lemma_scan_sound(
                p,
                ai,
                (depth - 1) as nat,
                alpha,
                beta,
                maximizing,
                moves,
                0,
                worst_score(maximizing),
            );
        }
    }
}

/// The step of `lemma_pruning_sound` over the replies of one node: if the
/// best score so far stands for the best of the first `k` replies and does
/// not cut the scan off, the outcome of the scan stands for the best of all
/// replies.
proof fn lemma_scan_sound(
    p: Position,
    ai: PieceColor,
    below: nat,
    alpha: int,
    beta: int,
    maximizing: bool,
    moves: Seq<Move>,
    k: nat,
    best: int,
)
    requires
        i32::MIN <= alpha < beta <= i32::MAX,
        k <= moves.len(),
        agrees_within(alpha, beta, best, best_reply(p, ai, below, maximizing, moves, k)),
        !cuts_off(maximizing, alpha, beta, best),
    ensures
        agrees_within(
            alpha,
            beta,
            scan_replies(p, ai, below, alpha, beta, maximizing, moves, k, best),
            best_reply(p, ai, below, maximizing, moves, moves.len()),
        ),
    decreases below, 1nat, moves.len() - k,
{
    if k < moves.len() {
        let m = moves[k as int];
        let next = successor(p, m.from, m.to);
        lemma_pruning_sound(next, ai, below, alpha, beta, !maximizing);
        let value = search_value(next, ai, below, alpha, beta, !maximizing);
        let improved = better(maximizing, best, value);
        assert(agrees_within(
            alpha,
            beta,
            improved,
            best_reply(p, ai, below, maximizing, moves, k + 1),
        ));
        if cuts_off(maximizing, alpha, beta, improved) {
            lemma_best_reply_monotone(p, ai, below, maximizing, moves, k + 1, moves.len());
        } else {
            lemma_scan_sound(p, ai, below, alpha, beta, maximizing, moves, k + 1, improved);
        }
    }
}

/// With the widest window nothing is pruned away: the pruning search and
/// plain minimax give every position the same value.
pub proof fn lemma_full_window_is_minimax(
    p: Position,
    ai: PieceColor,
    depth: nat,
    maximizing: bool,
)
    ensures
        search_value(p, ai, depth, i32::MIN as int, i32::MAX as int, maximizing) == minimax_value(
            p,
            ai,
            depth,
            maximizing,
        ),
{
    lemma_pruning_sound(p, ai, depth, i32::MIN as int, i32::MAX as int, maximizing);
    lemma_minimax_bounds(p, ai, depth, maximizing);
}

impl ChessAI {
    /// The legal moves of this player's own pieces.
    pub fn get_all_possible_moves(&self, board: &Board) -> (moves: Vec<Move>)
        ensures
            moves@ == legal_moves(board@, self.color),
    {
        board.legal_moves(self.color)
    }

    /// Minimax with alpha-beta pruning to `depth` plies. At a maximizing node
    /// this player moves, at a minimizing node its opponent. A node at which
    /// the side to move has no legal move scores -1000 if it is maximizing
    /// and 1000 if not, whether or not the king is attacked.
    pub fn minimax(&self, board: &Board, depth: u32, alpha: i32, beta: i32, maximizing: bool) -> (r:
        i32)
        ensures
            r == search_value(
                board@,
                self.color,
                depth as nat,
                alpha as int,
                beta as int,
                maximizing,
            ),
        decreases depth,
    {
        if depth == 0 {
            return self.evaluate_position(board);
        }
        let side = if maximizing {
            self.color
        } else {
            self.color.opponent()
        };
        let moves = board.legal_moves(side);
        if moves.len() == 0 {
            return if maximizing {
                NO_MOVE_SCORE
            } else {
                -NO_MOVE_SCORE
            };
        }
        let ghost below = (depth - 1) as nat;
        let ghost target = search_value(
            board@,
            self.color,
            depth as nat,
            alpha as int,
            beta as int,
            maximizing,
        );
        let mut best: i32 = if maximizing {
            i32::MIN
        } else {
            i32::MAX
        };
        let mut k: usize = 0;
        let mut cut = false;
        while k < moves.len() && !cut
            invariant
                depth > 0,
                below == depth - 1,
                k <= moves.len(),
                moves@ == legal_moves(board@, side_to_move(self.color, maximizing)),
                cut ==> best == target,
                !cut ==> target == scan_replies(
                    board@,
                    self.color,
                    below,
                    alpha as int,
                    beta as int,
                    maximizing,
                    moves@,
                    k as nat,
                    best as int,
                ),
            decreases moves.len() - k + if cut { 0int } else { 1int },
        {
            let m = moves[k];
            proof {
                lemma_legal_moves_are_legal(
                    board@,
                    side_to_move(self.color, maximizing),
                    k as int,
                );
            }
            let mut new_board = *board;
            if new_board.apply_move(m.from, m.to) {
                let eval = self.minimax(&new_board, depth - 1, alpha, beta, !maximizing);
                if maximizing {
                    if eval > best {
                        best = eval;
                    }
                    if best >= beta {
                        cut = true;
                    }
                } else {
                    if eval < best {
                        best = eval;
                    }
                    if best <= alpha {
                        cut = true;
                    }
                }
            }
            if !cut {
                k += 1;
            }
        }
        best
    }

    /// Chooses a move for this player by searching `depth` plies ahead:
    /// each legal move is valued by what follows it, and the first move of
    /// the greatest value is chosen. `None` when the player has no legal
    /// move. A depth of 0 is searched like a depth of 1.
    pub fn choose_move(&self, board: &Board, depth: u32) -> (choice: Option<Move>)
        ensures
            match choice {
                Some(m) => is_best_move(board@, self.color, depth as nat, m),
                None => legal_moves(board@, self.color).len() == 0,
            },
    {
        let below: u32 = if depth > 0 {
            depth - 1
        } else {
            0
        };
        let moves = self.get_all_possible_moves(board);
        let mut best_move: Option<Move> = None;
        let mut best_eval: i32 = i32::MIN;
        let ghost mut best_k: int = 0;
        let mut k: usize = 0;
        while k < moves.len()
            invariant
                k <= moves.len(),
                below == plies_below(depth as nat),
                moves@ == legal_moves(board@, self.color),
                k == 0 ==> best_move is None && best_eval == i32::MIN,
                k > 0 ==> 0 <= best_k < k && best_move == Some(moves@[best_k]) && best_eval
                    == reply_value(board@, self.color, depth as nat, moves@[best_k]),
                forall|j: int|
                    0 <= j < k ==> reply_value(board@, self.color, depth as nat, #[trigger] moves@[j])
                        <= best_eval,
                forall|j: int|
                    0 <= j < best_k ==> reply_value(
                        board@,
                        self.color,
                        depth as nat,
                        #[trigger] moves@[j],
                    ) < best_eval,
            decreases moves.len() - k,
        {
            let m = moves[k];
            proof {
                lemma_legal_moves_are_legal(board@, self.color, k as int);
            }
            let mut new_board = *board;
            if new_board.apply_move(m.from, m.to) {
                let eval = self.minimax(&new_board, below, i32::MIN, i32::MAX, false);
                proof {
                    lemma_full_window_is_minimax(new_board@, self.color, below as nat, false);
                    lemma_minimax_bounds(new_board@, self.color, below as nat, false);
                }
                if eval > best_eval {
                    best_eval = eval;
                    best_move = Some(m);
                    proof {
                        best_k = k as int;
                    }
                }
            }
            k += 1;
        }
        proof {
            if moves.len() > 0 {
                assert(moves@[best_k] == best_move->0);
            }
        }
        best_move
    }

    /// Chooses a move for this player by searching `MAX_DEPTH` plies ahead.
    pub fn make_move(&self, board: &Board) -> (choice: Option<Move>)
        ensures
            match choice {
                Some(m) => is_best_move(board@, self.color, MAX_DEPTH as nat, m),
                None => legal_moves(board@, self.color).len() == 0,
            },
    {
        self.choose_move(board, MAX_DEPTH)
    }
}

} // verus!
