use crate::board::{cell, piece_on, relocate, Board, Position};
use crate::piece::{Piece, PieceColor, PieceType};
use crate::square::{parse_position, parse_square, Square};
use vstd::prelude::*;

verus! {

/// The distance between two coordinates on one axis.
pub open spec fn gap(a: int, b: int) -> int {
    if a <= b {
        b - a
    } else {
        a - b
    }
}

/// The coordinate reached after `k` steps from `a` in the direction of `b`.
pub open spec fn toward(a: int, b: int, k: int) -> int {
    if a < b {
        a + k
    } else if a > b {
        a - k
    } else {
        a
    }
}

/// The number of steps a piece that slides in a straight line takes from
/// `from` to `to`.
pub open spec fn span(from: Square, to: Square) -> int {
    let rows = gap(from.row as int, to.row as int);
    let files = gap(from.file as int, to.file as int);
    if rows >= files {
        rows
    } else {
        files
    }
}

/// Whether every square strictly between `from` and `to`, walking from the
/// one toward the other one step at a time, is empty.
pub open spec fn path_clear(p: Position, from: Square, to: Square) -> bool {
    forall|k: int|
        0 < k < span(from, to) ==> (#[trigger] cell(
            p,
            toward(from.row as int, to.row as int, k),
            toward(from.file as int, to.file as int, k),
        )) is None
}

/// The row direction in which a side's pawns advance: White's go up the
/// board (toward row 0), Black's go down.
pub open spec fn pawn_direction(color: PieceColor) -> int {
    match color {
        PieceColor::White => -1,
        PieceColor::Black => 1,
    }
}

/// The row on which a side's pawns start.
pub open spec fn pawn_start_row(color: PieceColor) -> int {
    match color {
        PieceColor::White => 6,
        PieceColor::Black => 1,
    }
}

/// A pawn's reach: one step forward onto an empty square; two steps forward
/// from its starting row over an empty square onto an empty square; one step
/// diagonally forward onto an occupied square.
pub open spec fn pawn_reach(p: Position, from: Square, to: Square, color: PieceColor) -> bool {
    let rows = to.row as int - from.row as int;
    let dir = pawn_direction(color);
    if to.file == from.file {
        if rows == dir {
            piece_on(p, to) is None
        } else if from.row as int == pawn_start_row(color) && rows == 2 * dir {
            cell(p, from.row as int + dir, from.file as int) is None && piece_on(p, to) is None
        } else {
            false
        }
    } else {
        gap(from.file as int, to.file as int) == 1 && rows == dir && piece_on(p, to) is Some
    }
}

/// A rook's reach: along a row or a file, with nothing in between.
pub open spec fn rook_reach(p: Position, from: Square, to: Square) -> bool {
    (from.file == to.file || from.row == to.row) && path_clear(p, from, to)
}

/// A bishop's reach: along a diagonal, with nothing in between.
pub open spec fn bishop_reach(p: Position, from: Square, to: Square) -> bool {
    gap(from.file as int, to.file as int) == gap(from.row as int, to.row as int) && path_clear(
        p,
        from,
        to,
    )
}

/// A knight's reach: two squares along one axis and one along the other. It
/// jumps, so nothing stands in its way.
pub open spec fn knight_reach(from: Square, to: Square) -> bool {
    let files = gap(from.file as int, to.file as int);
    let rows = gap(from.row as int, to.row as int);
    (files == 2 && rows == 1) || (files == 1 && rows == 2)
}

/// A queen's reach: a rook's or a bishop's.
pub open spec fn queen_reach(p: Position, from: Square, to: Square) -> bool {
    rook_reach(p, from, to) || bishop_reach(p, from, to)
}

/// A king's reach: at most one square along each axis.
pub open spec fn king_reach(from: Square, to: Square) -> bool {
    gap(from.file as int, to.file as int) <= 1 && gap(from.row as int, to.row as int) <= 1
}

/// Whether the movement rule of `piece` takes it from `from` to `to` on
/// this position, both squares being on the board.
pub open spec fn geometry_permits(p: Position, piece: Piece, from: Square, to: Square) -> bool {
    match piece.piece_type {
        PieceType::Pawn => pawn_reach(p, from, to, piece.color),
        PieceType::Rook => rook_reach(p, from, to),
        PieceType::Knight => knight_reach(from, to),
        PieceType::Bishop => bishop_reach(p, from, to),
        PieceType::Queen => queen_reach(p, from, to),
        PieceType::King => king_reach(from, to),
    }
}

/// A move that obeys everything but the safety of the mover's own king:
/// both squares are on the board, a piece stands on `from`, no piece of its
/// own side stands on `to`, and its movement rule takes it there.
pub open spec fn pseudo_legal(p: Position, from: Square, to: Square) -> bool {
    &&& from.valid()
    &&& to.valid()
    &&& piece_on(p, from) matches Some(piece)
    &&& !(piece_on(p, to) matches Some(other) && other.color == piece.color)
    &&& geometry_permits(p, piece, from, to)
}

/// Whether a king of `color` stands on grid position `i`.
pub open spec fn holds_king(p: Position, color: PieceColor, i: int) -> bool {
    0 <= i < 64 && p[i] == Some(Piece { piece_type: PieceType::King, color })
}

/// Whether grid position `i` is where the detector takes the king of `color`
/// to be: a king of that side stands there, none stands on a row further
/// down, and none stands further left on the same row. With one king on the
/// board this is the king's square.
pub open spec fn is_king_square(p: Position, color: PieceColor, i: int) -> bool {
    &&& holds_king(p, color, i)
    &&& forall|j: int| #[trigger]
        holds_king(p, color, j) ==> j / 8 < i / 8 || (j / 8 == i / 8 && i <= j)
}

/// What a scan of the rows above `rows` knows of the king of `color`: the
/// square found is the king's square as far as those rows go.
spec fn king_among_rows(p: Position, color: PieceColor, rows: int, found: Option<Square>) -> bool {
    match found {
        Some(sq) => {
            &&& sq.valid()
            &&& sq.row < rows
            &&& holds_king(p, color, sq.index())
            &&& forall|j: int| #[trigger]
                holds_king(p, color, j) && j / 8 < rows ==> j / 8 < sq.row || (j / 8 == sq.row
                    && sq.index() <= j)
        },
        None => forall|j: int| #[trigger] holds_king(p, color, j) ==> j / 8 >= rows,
    }
}

/// Whether the piece on grid position `i` is an enemy of `color` with a
/// pseudo-legal move onto grid position `target`.
pub open spec fn attacks(p: Position, color: PieceColor, i: int, target: int) -> bool {
    &&& 0 <= i < 64
    &&& p[i] matches Some(piece)
    &&& piece.color != color
    &&& pseudo_legal(p, Square::at_index(i), Square::at_index(target))
}

/// Whether the king of `color` is attacked: some enemy piece has a
/// pseudo-legal move onto the king's square. A side without a king is never
/// in check.
pub open spec fn in_check(p: Position, color: PieceColor) -> bool {
    exists|k: int, i: int| is_king_square(p, color, k) && #[trigger] attacks(p, color, i, k)
}

/// A legal move: pseudo-legal, and after it the mover's own king is not
/// attacked.
pub open spec fn legal(p: Position, from: Square, to: Square) -> bool {
    &&& pseudo_legal(p, from, to)
    &&& !in_check(relocate(p, from, to), piece_on(p, from)->0.color)
}

/// The distance between two grid coordinates.
fn distance(a: usize, b: usize) -> (r: usize)
    ensures
        r == gap(a as int, b as int),
{
    if a <= b {
        b - a
    } else {
        a - b
    }
}

/// One step from `a` in the direction of `b`.
fn step_toward(a: usize, b: usize) -> (r: usize)
    requires
        a < 8,
        b < 8,
    ensures
        r == toward(a as int, b as int, 1),
{
    if a < b {
        a + 1
    } else if a > b {
        a - 1
    } else {
        a
    }
}

impl Board {
    /// Whether every square strictly between two squares of one row, one
    /// file or one diagonal is empty.
    fn is_path_clear(&self, from: Square, to: Square) -> (r: bool)
        requires
            from.valid(),
            to.valid(),
            from.file == to.file || from.row == to.row || gap(from.file as int, to.file as int)
                == gap(from.row as int, to.row as int),
        ensures
            r == path_clear(self@, from, to),
    {
        let rows = distance(from.row, to.row);
        let files = distance(from.file, to.file);
        let steps = if rows >= files {
            rows
        } else {
            files
        };
        let mut k: usize = 1;
        let mut row = step_toward(from.row, to.row);
        let mut file = step_toward(from.file, to.file);
        while k < steps
            invariant
                from.valid(),
                to.valid(),
                from.file == to.file || from.row == to.row || gap(
                    from.file as int,
                    to.file as int,
                ) == gap(from.row as int, to.row as int),
                steps == span(from, to),
                1 <= k,
                row == toward(from.row as int, to.row as int, k as int),
                file == toward(from.file as int, to.file as int, k as int),
                forall|j: int|
                    0 < j < k ==> (#[trigger] cell(
                        self@,
                        toward(from.row as int, to.row as int, j),
                        toward(from.file as int, to.file as int, j),
                    )) is None,
            decreases steps - k,
        {
            if self.squares[row * 8 + file].is_some() {
                assert(cell(
                    self@,
                    toward(from.row as int, to.row as int, k as int),
                    toward(from.file as int, to.file as int, k as int),
                ) is Some);
                return false;
            }
            k += 1;
            row = step_toward(row, to.row);
            file = step_toward(file, to.file);
        }
        true
    }

    /// Whether a pawn of `color` on `from` reaches `to`.
    pub fn is_valid_pawn_move(&self, from: Square, to: Square, color: PieceColor) -> (r: bool)
        ensures
            r == (from.valid() && to.valid() && pawn_reach(self@, from, to, color)),
    {
        if !from.is_valid() || !to.is_valid() {
            return false;
        }
        let direction: i32 = if color == PieceColor::White {
            -1
        } else {
            1
        };
        let start_row: usize = if color == PieceColor::White {
            6
        } else {
            1
        };
        let dx = to.file as i32 - from.file as i32;
        let dy = to.row as i32 - from.row as i32;
        if dx == 0 {
            if dy == direction {
                return self.piece_at(to).is_none();
            }
            if from.row == start_row && dy == 2 * direction {
                let between = Square { file: from.file, row: (from.row as i32 + direction) as usize };
                return self.piece_at(between).is_none() && self.piece_at(to).is_none();
            }
            false
        } else if (dx == 1 || dx == -1) && dy == direction {
            self.piece_at(to).is_some()
        } else {
            false
        }
    }

    /// Whether a rook on `from` reaches `to`.
    pub fn is_valid_rook_move(&self, from: Square, to: Square) -> (r: bool)
        ensures
            r == (from.valid() && to.valid() && rook_reach(self@, from, to)),
    {
        if !from.is_valid() || !to.is_valid() {
            return false;
        }
        if from.file != to.file && from.row != to.row {
            return false;
        }
        self.is_path_clear(from, to)
    }

    /// Whether a knight on `from` reaches `to`.
    pub fn is_valid_knight_move(&self, from: Square, to: Square) -> (r: bool)
        ensures
            r == (from.valid() && to.valid() && knight_reach(from, to)),
    {
        if !from.is_valid() || !to.is_valid() {
            return false;
        }
        let dx = distance(from.file, to.file);
        let dy = distance(from.row, to.row);
        (dx == 2 && dy == 1) || (dx == 1 && dy == 2)
    }

    /// Whether a bishop on `from` reaches `to`.
    pub fn is_valid_bishop_move(&self, from: Square, to: Square) -> (r: bool)
        ensures
            r == (from.valid() && to.valid() && bishop_reach(self@, from, to)),
    {
        if !from.is_valid() || !to.is_valid() {
            return false;
        }
        if distance(from.file, to.file) != distance(from.row, to.row) {
            return false;
        }
        self.is_path_clear(from, to)
    }

    /// Whether a queen on `from` reaches `to`.
    pub fn is_valid_queen_move(&self, from: Square, to: Square) -> (r: bool)
        ensures
            r == (from.valid() && to.valid() && queen_reach(self@, from, to)),
    {
        self.is_valid_rook_move(from, to) || self.is_valid_bishop_move(from, to)
    }

    /// Whether a king on `from` reaches `to`.
    pub fn is_valid_king_move(&self, from: Square, to: Square) -> (r: bool)
        ensures
            r == (from.valid() && to.valid() && king_reach(from, to)),
    {
        if !from.is_valid() || !to.is_valid() {
            return false;
        }
        distance(from.file, to.file) <= 1 && distance(from.row, to.row) <= 1
    }

    /// Whether the move obeys everything but the safety of the mover's own
    /// king. This is the test that attack detection uses.
    pub fn is_pseudo_legal(&self, from: Square, to: Square) -> (r: bool)
        ensures
            r == pseudo_legal(self@, from, to),
    {
        if !from.is_valid() || !to.is_valid() {
            return false;
        }
        let piece = match self.piece_at(from) {
            Some(p) => p,
            None => {
                return false;
            },
        };
        if let Some(dest_piece) = self.piece_at(to) {
            if dest_piece.color == piece.color {
                return false;
            }
        }
        match piece.piece_type {
            PieceType::Pawn => self.is_valid_pawn_move(from, to, piece.color),
            PieceType::Rook => self.is_valid_rook_move(from, to),
            PieceType::Knight => self.is_valid_knight_move(from, to),
            PieceType::Bishop => self.is_valid_bishop_move(from, to),
            PieceType::Queen => self.is_valid_queen_move(from, to),
            PieceType::King => self.is_valid_king_move(from, to),
        }
    }

    /// Where the king of `color` stands: on the lowest row that holds one,
    /// the leftmost. `None` when the side has no king.
    pub fn find_king(&self, color: PieceColor) -> (r: Option<Square>)
        ensures
            match r {
                Some(sq) => sq.valid() && is_king_square(self@, color, sq.index()),
                None => forall|i: int| !holds_king(self@, color, i),
            },
    {
        let mut king_pos: Option<Square> = None;
        let mut row: usize = 0;
        while row < 8
            invariant
                row <= 8,
                king_among_rows(self@, color, row as int, king_pos),
            decreases 8 - row,
        {
            let ghost before = king_pos;
            let mut file: usize = 0;
            let mut found = false;
            while file < 8 && !found
                invariant
                    row < 8,
                    file <= 8,
                    king_among_rows(self@, color, row as int, before),
                    !found ==> king_pos == before,
                    !found ==> forall|j: int| #[trigger]
                        holds_king(self@, color, j) && j / 8 == row ==> j % 8 >= file,
                    found ==> king_pos == Some(Square { file, row }) && file < 8 && holds_king(
                        self@,
                        color,
                        row * 8 + file,
                    ),
                    found ==> forall|j: int| #[trigger]
                        holds_king(self@, color, j) && j / 8 == row ==> j % 8 >= file,
                decreases 8 - file + if found { 0int } else { 1int },
            {
                let here = match self.squares[row * 8 + file] {
                    Some(piece) => piece.piece_type == PieceType::King && piece.color == color,
                    None => false,
                };
                if here {
                    king_pos = Some(Square { file, row });
                    found = true;
                } else {
                    assert forall|j: int| #[trigger]
                        holds_king(self@, color, j) && j / 8 == row implies j % 8 >= file + 1 by {
                        if j % 8 == file {
                            assert(j == row * 8 + file);
                        }
                    }
                    file += 1;
                }
            }
            row += 1;
        }
        king_pos
    }

    /// Whether the king of `color` is attacked: some enemy piece has a
    /// pseudo-legal move onto the king's square.
    pub fn is_king_in_check(&self, color: PieceColor) -> (r: bool)
        ensures
            r == in_check(self@, color),
    {
        let king = match self.find_king(color) {
            Some(sq) => sq,
            None => {
                return false;
            },
        };
        let mut i: usize = 0;
        while i < 64
            invariant
                i <= 64,
                king.valid(),
                is_king_square(self@, color, king.index()),
                forall|j: int| 0 <= j < i ==> !attacks(self@, color, j, king.index()),
            decreases 64 - i,
        {
            if let Some(piece) = self.squares[i] {
                if piece.color != color {
                    if self.is_pseudo_legal(Square::from_index(i), king) {
                        assert(Square::at_index(king.index()) == king);
                        assert(attacks(self@, color, i as int, king.index()));
                        return true;
                    }
                }
            }
            assert(Square::at_index(king.index()) == king);
            i += 1;
        }
        assert forall|k: int, j: int| is_king_square(self@, color, k) implies !attacks(
            self@,
            color,
            j,
            k,
        ) by {
            assert(k == king.index());
        }
        false
    }

    /// Whether moving the piece on `from` to `to` is legal: the move is
    /// pseudo-legal and does not leave the mover's own king attacked.
    pub fn is_legal(&self, from: Square, to: Square) -> (r: bool)
        ensures
            r == legal(self@, from, to),
    {
        if !self.is_pseudo_legal(from, to) {
            return false;
        }
        let piece = match self.piece_at(from) {
            Some(p) => p,
            None => {
                return false;
            },
        };
        let mut next = *self;
        next.squares[to.row * 8 + to.file] = next.squares[from.row * 8 + from.file];
        next.squares[from.row * 8 + from.file] = None;
        assert(next@ == relocate(self@, from, to));
        !next.is_king_in_check(piece.color)
    }

    /// Whether the move between two squares given in algebraic notation is
    /// legal. A text that names no square makes the move illegal.
    pub fn is_valid_move(&self, from: &str, to: &str) -> (r: bool)
        ensures
            r == match (parse_square(from@), parse_square(to@)) {
                (Some(a), Some(b)) => legal(self@, a, b),
                _ => false,
            },
    {
        let a = match parse_position(from) {
            Some(sq) => sq,
            None => {
                return false;
            },
        };
        let b = match parse_position(to) {
            Some(sq) => sq,
            None => {
                return false;
            },
        };
        self.is_legal(a, b)
    }
}

/// On an empty destination the movement rule and the king's safety decide
/// alone: where a piece stands on `a`, nothing stands on `b`, and the
/// piece's movement rule takes it from `a` to `b`, the move is legal unless
/// it leaves the mover's own king attacked, and illegal if it does.
pub proof fn lemma_legal_onto_empty(p: Position, a: Square, b: Square)
    requires
        a.valid(),
        b.valid(),
        piece_on(p, a) matches Some(piece) && geometry_permits(p, piece, a, b),
        piece_on(p, b) is None,
    ensures
        legal(p, a, b) <==> !in_check(relocate(p, a, b), piece_on(p, a)->0.color),
{
}

/// A move that leaves the mover's own king attacked is illegal, whatever
/// the movement rule of the piece allows.
pub proof fn lemma_exposing_king_is_illegal(p: Position, a: Square, b: Square)
    requires
        piece_on(p, a) matches Some(piece) && in_check(relocate(p, a, b), piece.color),
    ensures
        !legal(p, a, b),
{
}

/// Whether two positions have pieces on the same cells.
pub open spec fn same_occupancy(p: Position, q: Position) -> bool {
    forall|i: int| 0 <= i < 64 ==> ((#[trigger] p[i]) is None <==> (#[trigger] q[i]) is None)
}

/// Whether a line between two squares is clear depends only on which cells
/// are occupied.
pub proof fn lemma_path_clear_by_occupancy(p: Position, q: Position, from: Square, to: Square)
    requires
        same_occupancy(p, q),
    ensures
        path_clear(p, from, to) == path_clear(q, from, to),
{
    assert forall|r: int, f: int| (#[trigger] cell(p, r, f)) is None <==> (#[trigger] cell(
        q,
        r,
        f,
    )) is None by {
        if 0 <= r < 8 && 0 <= f < 8 {
            assert(p[r * 8 + f] is None <==> q[r * 8 + f] is None);
        }
    }
    if path_clear(p, from, to) {
        assert forall|k: int| 0 < k < span(from, to) implies (#[trigger] cell(
            q,
            toward(from.row as int, to.row as int, k),
            toward(from.file as int, to.file as int, k),
        )) is None by {
            assert(cell(
                p,
                toward(from.row as int, to.row as int, k),
                toward(from.file as int, to.file as int, k),
            ) is None);
        }
    }
    if path_clear(q, from, to) {
        assert forall|k: int| 0 < k < span(from, to) implies (#[trigger] cell(
            p,
            toward(from.row as int, to.row as int, k),
            toward(from.file as int, to.file as int, k),
        )) is None by {
            assert(cell(
                q,
                toward(from.row as int, to.row as int, k),
                toward(from.file as int, to.file as int, k),
            ) is None);
        }
    }
}

/// Changing the kind of one piece, but not its side, changes no other
/// piece's pseudo-legal moves.
pub proof fn lemma_pseudo_legal_after_change(
    p: Position,
    changed: int,
    piece: Piece,
    from: Square,
    to: Square,
)
    requires
        p.len() == 64,
        0 <= changed < 64,
        p[changed] matches Some(before) && before.color == piece.color,
        from.index() != changed,
    ensures
        pseudo_legal(p.update(changed, Some(piece)), from, to) == pseudo_legal(p, from, to),
{
    let q = p.update(changed, Some(piece));
    assert(same_occupancy(p, q));
    lemma_path_clear_by_occupancy(p, q, from, to);
    if from.valid() && to.valid() {
        assert(piece_on(q, from) == piece_on(p, from));
        assert(piece_on(q, to) is None <==> piece_on(p, to) is None);
        if piece_on(p, from) is Some {
            let mover = piece_on(p, from)->0;
            let dir = pawn_direction(mover.color);
            assert(cell(q, from.row as int + dir, from.file as int) is None <==> cell(
                p,
                from.row as int + dir,
                from.file as int,
            ) is None) by {
                let r = from.row as int + dir;
                if 0 <= r < 8 {
                    assert(q[r * 8 + from.file as int] is None <==> p[r * 8 + from.file as int]
                        is None);
                }
            }
        }
    }
}

/// Changing the kind of a piece of `color` that is not its king, into
/// another kind that is not a king, does not change whether `color` is in
/// check.
pub proof fn lemma_check_after_change(p: Position, changed: int, piece: Piece)
    requires
        p.len() == 64,
        0 <= changed < 64,
        p[changed] matches Some(before) && before.color == piece.color && before.piece_type
            != PieceType::King,
        piece.piece_type != PieceType::King,
    ensures
        in_check(p.update(changed, Some(piece)), piece.color) == in_check(p, piece.color),
{
    let q = p.update(changed, Some(piece));
    let color = piece.color;
    assert forall|i: int| holds_king(q, color, i) == holds_king(p, color, i) by {}
    assert forall|k: int| is_king_square(q, color, k) == is_king_square(p, color, k) by {
        if is_king_square(p, color, k) {
            assert forall|j: int| #[trigger] holds_king(q, color, j) implies j / 8 < k / 8 || (j
                / 8 == k / 8 && k <= j) by {
                assert(holds_king(p, color, j));
            }
        }
        if is_king_square(q, color, k) {
            assert forall|j: int| #[trigger] holds_king(p, color, j) implies j / 8 < k / 8 || (j
                / 8 == k / 8 && k <= j) by {
                assert(holds_king(q, color, j));
            }
        }
    }
    assert forall|i: int, k: int| attacks(q, color, i, k) == attacks(p, color, i, k) by {
        if 0 <= i < 64 && i != changed {
            lemma_pseudo_legal_after_change(
                p,
                changed,
                piece,
                Square::at_index(i),
                Square::at_index(k),
            );
        }
    }
    if in_check(p, color) {
        let (k, i) = choose|k: int, i: int|
            is_king_square(p, color, k) && #[trigger] attacks(p, color, i, k);
        assert(is_king_square(q, color, k) && attacks(q, color, i, k));
    }
    if in_check(q, color) {
        let (k, i) = choose|k: int, i: int|
            is_king_square(q, color, k) && #[trigger] attacks(q, color, i, k);
        assert(is_king_square(p, color, k) && attacks(p, color, i, k));
    }
}

} // verus!
