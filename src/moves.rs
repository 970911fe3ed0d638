//! Movement geometry of each piece kind.
//!
//! Each rule takes the vertical delta `v`, already corrected for the mover's
//! direction (positive means forward), and the absolute horizontal delta `h`.
use vstd::prelude::*;
use crate::datamodel::{valid_cell, Board, PieceKind};

verus! {

pub open spec fn abs(x: int) -> int {
    if x < 0 { -x } else { x }
}

pub open spec fn min(a: int, b: int) -> int {
    if a < b { a } else { b }
}

pub open spec fn max(a: int, b: int) -> int {
    if a < b { b } else { a }
}

/// The coordinate `k` steps from `a` in the direction of the sign of `d`.
pub open spec fn step(a: int, d: int, k: int) -> int {
    if d > 0 { a + k } else if d < 0 { a - k } else { a }
}

/// The side pawn that a sideways pawn move from `from` to `to` would take en
/// passant: an opposing pawn beside the mover, on the file of `to`, that made
/// exactly one move, a two-rank advance, on the move just before this one;
/// and `to` is empty.
pub open spec fn en_passant_rule(b: Board, from: (usize, usize), to: (usize, usize)) -> bool {
    match b.at(to.0 as int, from.1 as int) {
        Some(p) => {
            &&& p.kind == PieceKind::Pawn
            &&& p.color != b.at(from.0 as int, from.1 as int)->0.color
            &&& p.made_n_moves == 1
            &&& p.last_moved_at_move_number + 1 == b.number_of_moves
            &&& p.has_pawn_made_leap
            &&& b.is_empty_at(to.0 as int, to.1 as int)
        },
        None => false,
    }
}

/// Pawn geometry: one step forward onto an empty cell, a diagonal step that
/// takes an opposing piece or takes en passant, or two steps forward from a
/// starting rank over two empty cells.
pub open spec fn pawn_rule(b: Board, v: int, h: int, from: (usize, usize), to: (usize, usize)) -> bool {
    let (fx, fy, tx, ty) = (from.0 as int, from.1 as int, to.0 as int, to.1 as int);
    if v == 1 {
        if h == 0 {
            b.is_empty_at(tx, ty)
        } else if h == 1 {
            (b.at(tx, ty) is Some && b.at(tx, ty)->0.color != b.at(fx, fy)->0.color)
                || en_passant_rule(b, from, to)
        } else {
            false
        }
    } else if v == 2 && h == 0 {
        (fy == 1 || fy == 6) && b.is_empty_at(tx, (ty + fy) / 2) && b.is_empty_at(tx, ty)
    } else {
        false
    }
}

/// Every cell of `rank` strictly between files `lo` and `hi` is empty.
pub open spec fn rank_clear(b: Board, rank: int, lo: int, hi: int) -> bool {
    forall|x: int| lo < x < hi ==> #[trigger] b.is_empty_at(x, rank)
}

/// Every cell of `file` strictly between ranks `lo` and `hi` is empty.
pub open spec fn file_clear(b: Board, file: int, lo: int, hi: int) -> bool {
    forall|y: int| lo < y < hi ==> #[trigger] b.is_empty_at(file, y)
}

/// Rook geometry: along a rank or a file, over empty cells only.
pub open spec fn rook_rule(b: Board, v: int, h: int, from: (usize, usize), to: (usize, usize)) -> bool {
    let (fx, fy, tx, ty) = (from.0 as int, from.1 as int, to.0 as int, to.1 as int);
    if v != 0 && h != 0 {
        false
    } else if v == 0 {
        rank_clear(b, fy, min(fx, tx), max(fx, tx))
    } else {
        file_clear(b, fx, min(fy, ty), max(fy, ty))
    }
}

/// The cell `k` steps from `from` toward `to`, along their rank, file or
/// diagonal, is empty.
pub open spec fn line_cell_empty(b: Board, from: (usize, usize), to: (usize, usize), k: int) -> bool {
    let (fx, fy, tx, ty) = (from.0 as int, from.1 as int, to.0 as int, to.1 as int);
    b.is_empty_at(step(fx, tx - fx, k), step(fy, ty - fy, k))
}

/// Every cell strictly between `from` and `to` on their diagonal is empty.
pub open spec fn diagonal_clear(b: Board, from: (usize, usize), to: (usize, usize)) -> bool {
    forall|k: int| 0 < k < abs(to.0 - from.0) ==> #[trigger] line_cell_empty(b, from, to, k)
}

/// Bishop geometry: along a diagonal, over empty cells only.
pub open spec fn bishop_rule(b: Board, v: int, h: int, from: (usize, usize), to: (usize, usize)) -> bool {
    abs(v) == h && diagonal_clear(b, from, to)
}

/// Queen geometry: that of a bishop or of a rook.
pub open spec fn queen_rule(b: Board, v: int, h: int, from: (usize, usize), to: (usize, usize)) -> bool {
    bishop_rule(b, v, h, from, to) || rook_rule(b, v, h, from, to)
}

/// Knight geometry: one and two cells, or two and one.
pub open spec fn knight_rule(v: int, h: int) -> bool {
    (abs(v) == 1 && h == 2) || (abs(v) == 2 && h == 1)
}

/// King geometry: both deltas below two in absolute value. A zero delta
/// passes here; it never makes a legal move, since the source cell holds a
/// piece of the mover's own color.
pub open spec fn king_rule(v: int, h: int) -> bool {
    abs(v) < 2 && h < 2
}

/// The deltas handed to a rule are those between `from` and `to`, up to the
/// sign of the vertical one.
pub open spec fn deltas_match(v: int, h: int, from: (usize, usize), to: (usize, usize)) -> bool {
    &&& h == abs(to.0 - from.0)
    &&& abs(v) == abs(to.1 - from.1)
}

/// Whether a pawn at `from` may move to `to` by the pawn rule.
pub fn can_move_pawn(
    board: &Board,
    vertical_diff: i8,
    horizontal_diff: i8,
    from_position: &(usize, usize),
    to_position: &(usize, usize),
) -> (r: bool)
    requires
        valid_cell(*from_position),
        valid_cell(*to_position),
        board.at(from_position.0 as int, from_position.1 as int) is Some,
    ensures
        r == pawn_rule(*board, vertical_diff as int, horizontal_diff as int, *from_position, *to_position),
{
    let piece_to_take = board.piece_at(to_position);
    if vertical_diff == 1 {
        if horizontal_diff == 0 {
            piece_to_take.is_none()
        } else if horizontal_diff == 1 {
            let mover = board.piece_at(from_position).unwrap();
            let is_regular_taking = match piece_to_take {
                Some(p) => mover.color != p.color,
                None => false,
            };
            let is_en_passant = is_en_passant_move(board, from_position, to_position);
            is_regular_taking || is_en_passant
        } else {
            false
        }
    } else if vertical_diff == 2 && horizontal_diff == 0 {
        if from_position.1 == 1 || from_position.1 == 6 {
            let intermediate = (to_position.0, (to_position.1 + from_position.1) / 2);
            board.piece_at(&intermediate).is_none() && piece_to_take.is_none()
        } else {
            false
        }
    } else {
        false
    }
}

/// Whether a sideways pawn move from `from` to `to` takes en passant.
pub fn is_en_passant_move(board: &Board, from_position: &(usize, usize), to_position: &(usize, usize)) -> (r: bool)
    requires
        valid_cell(*from_position),
        valid_cell(*to_position),
        board.at(from_position.0 as int, from_position.1 as int) is Some,
    ensures
        r == en_passant_rule(*board, *from_position, *to_position),
{
    let pawn_to_move = board.piece_at(from_position).unwrap();
    let piece_at_destination = board.piece_at(to_position);
    match board.piece_at(&(to_position.0, from_position.1)) {
        Some(piece) => {
            piece.kind == PieceKind::Pawn && piece.color != pawn_to_move.color && piece.made_n_moves == 1
                && board.number_of_moves > 0
                && piece.last_moved_at_move_number == board.number_of_moves - 1
                && piece.has_pawn_made_leap && piece_at_destination.is_none()
        },
        None => false,
    }
}

/// Whether a rook may move from `from` to `to`.
pub fn can_move_rook(
    board: &Board,
    vertical_diff: i8,
    horizontal_diff: i8,
    from_position: &(usize, usize),
    to_position: &(usize, usize),
) -> (r: bool)
    requires
        valid_cell(*from_position),
        valid_cell(*to_position),
    ensures
        r == rook_rule(*board, vertical_diff as int, horizontal_diff as int, *from_position, *to_position),
{
    if vertical_diff != 0 && horizontal_diff != 0 {
        false
    } else if vertical_diff == 0 {
        let rank = from_position.1;
        let lo = if from_position.0 < to_position.0 { from_position.0 } else { to_position.0 };
        let hi = if from_position.0 < to_position.0 { to_position.0 } else { from_position.0 };
        let mut x_pos: usize = lo + 1;
        while x_pos < hi
            invariant
                lo < x_pos <= hi || (x_pos == lo + 1 && hi <= lo + 1),
                hi < 8,
                rank < 8,
                rank == from_position.1,
                vertical_diff == 0,
                lo == min(from_position.0 as int, to_position.0 as int),
                hi == max(from_position.0 as int, to_position.0 as int),
                forall|x: int| lo < x < x_pos ==> #[trigger] board.is_empty_at(x, rank as int),
            decreases hi - x_pos,
        {
            if board.piece_at(&(x_pos, rank)).is_some() {
                assert(!board.is_empty_at(x_pos as int, rank as int));
                return false;
            }
            x_pos = x_pos + 1;
        }
        true
    } else {
        let file = from_position.0;
        let lo = if from_position.1 < to_position.1 { from_position.1 } else { to_position.1 };
        let hi = if from_position.1 < to_position.1 { to_position.1 } else { from_position.1 };
        let mut y_pos: usize = lo + 1;
        while y_pos < hi
            invariant
                lo < y_pos <= hi || (y_pos == lo + 1 && hi <= lo + 1),
                hi < 8,
                file < 8,
                file == from_position.0,
                vertical_diff != 0 && horizontal_diff == 0,
                lo == min(from_position.1 as int, to_position.1 as int),
                hi == max(from_position.1 as int, to_position.1 as int),
                forall|y: int| lo < y < y_pos ==> #[trigger] board.is_empty_at(file as int, y),
            decreases hi - y_pos,
        {
            if board.piece_at(&(file, y_pos)).is_some() {
                assert(!board.is_empty_at(file as int, y_pos as int));
                return false;
            }
            y_pos = y_pos + 1;
        }
        true
    }
}

/// Whether a knight may move by these deltas.
pub fn can_move_knight(vertical_diff: i8, horizontal_diff: i8) -> (r: bool)
    ensures
        r == knight_rule(vertical_diff as int, horizontal_diff as int),
{
    ((vertical_diff == 1 || vertical_diff == -1) && horizontal_diff == 2)
        || ((vertical_diff == 2 || vertical_diff == -2) && horizontal_diff == 1)
}

/// Whether a bishop may move from `from` to `to`.
pub fn can_move_bishop(
    board: &Board,
    vertical_diff: i8,
    horizontal_diff: i8,
    from_position: &(usize, usize),
    to_position: &(usize, usize),
) -> (r: bool)
    requires
        valid_cell(*from_position),
        valid_cell(*to_position),
        deltas_match(vertical_diff as int, horizontal_diff as int, *from_position, *to_position),
    ensures
        r == bishop_rule(*board, vertical_diff as int, horizontal_diff as int, *from_position, *to_position),
{
    let vertical_abs: i8 = if vertical_diff < 0 { -vertical_diff } else { vertical_diff };
    if vertical_abs != horizontal_diff {
        false
    } else {
        let (fx, fy) = *from_position;
        let (tx, ty) = *to_position;
        let n: usize = if tx < fx { fx - tx } else { tx - fx };
        let mut k: usize = 1;
        while k < n
            invariant
                1 <= k,
                k <= n || n == 0,
                n == abs(tx - fx),
                n == abs(ty - fy),
                fx < 8, fy < 8, tx < 8, ty < 8,
                (fx, fy) == *from_position,
                (tx, ty) == *to_position,
                forall|j: int| 0 < j < k ==> #[trigger] line_cell_empty(*board, *from_position, *to_position, j),
            decreases n - k,
        {
            let x: usize = if tx > fx { fx + k } else { fx - k };
            let y: usize = if ty > fy { fy + k } else { fy - k };
            assert(x as int == step(fx as int, tx - fx, k as int));
            assert(y as int == step(fy as int, ty - fy, k as int));
            if board.piece_at(&(x, y)).is_some() {
                assert(!line_cell_empty(*board, *from_position, *to_position, k as int));
                return false;
            }
            k = k + 1;
        }
        true
    }
}

/// Whether a queen may move from `from` to `to`.
pub fn can_move_queen(
    board: &Board,
    vertical_diff: i8,
    horizontal_diff: i8,
    from_position: &(usize, usize),
    to_position: &(usize, usize),
) -> (r: bool)
    requires
        valid_cell(*from_position),
        valid_cell(*to_position),
        deltas_match(vertical_diff as int, horizontal_diff as int, *from_position, *to_position),
    ensures
        r == queen_rule(*board, vertical_diff as int, horizontal_diff as int, *from_position, *to_position),
{
    can_move_bishop(board, vertical_diff, horizontal_diff, from_position, to_position)
        || can_move_rook(board, vertical_diff, horizontal_diff, from_position, to_position)
}

/// Whether a king may move by these deltas.
pub fn can_move_king(vertical_diff: i8, horizontal_diff: i8) -> (r: bool)
    ensures
        r == king_rule(vertical_diff as int, horizontal_diff as int),
{
    -2 < vertical_diff && vertical_diff < 2 && horizontal_diff < 2
}

} // verus!
