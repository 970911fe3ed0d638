//! Properties of the rules that relate several definitions or calls.
use vstd::prelude::*;
use crate::datamodel::{lemma_with_cell_at, valid_cell, Board, PieceKind};
use crate::game::{after_move, moved_piece, takes_en_passant};
use crate::legality::{forward_delta, holds_color, legal_move, safe_move};
use crate::moves::{abs, en_passant_rule, file_clear, line_cell_empty, max, min, rank_clear, step};

verus! {

/// `from` and `to` are distinct cells of one rank or one file.
pub open spec fn straight_line(from: (usize, usize), to: (usize, usize)) -> bool {
    from != to && (from.0 == to.0 || from.1 == to.1)
}

/// `from` and `to` are distinct cells of one diagonal.
pub open spec fn diagonal_line(from: (usize, usize), to: (usize, usize)) -> bool {
    from != to && abs(to.0 - from.0) == abs(to.1 - from.1)
}

/// Every cell strictly between `from` and `to` on their line is empty.
pub open spec fn path_clear(b: Board, from: (usize, usize), to: (usize, usize)) -> bool {
    forall|k: int|
        0 < k < max(abs(to.0 - from.0), abs(to.1 - from.1)) ==> #[trigger] line_cell_empty(b, from, to, k)
}

proof fn lemma_rank_path(b: Board, from: (usize, usize), to: (usize, usize))
    requires
        valid_cell(from),
        valid_cell(to),
        from.1 == to.1,
    ensures
        rank_clear(b, from.1 as int, min(from.0 as int, to.0 as int), max(from.0 as int, to.0 as int))
            <==> path_clear(b, from, to),
{
    let (fx, fy, tx) = (from.0 as int, from.1 as int, to.0 as int);
    let (lo, hi) = (min(fx, tx), max(fx, tx));
    if rank_clear(b, fy, lo, hi) {
        assert forall|k: int| 0 < k < max(abs(tx - fx), abs(to.1 - from.1)) implies #[trigger] line_cell_empty(
            b,
            from,
            to,
            k,
        ) by {
            assert(b.is_empty_at(step(fx, tx - fx, k), fy));
        }
    }
    if path_clear(b, from, to) {
        assert forall|x: int| lo < x < hi implies #[trigger] b.is_empty_at(x, fy) by {
            let k = abs(x - fx);
            assert(line_cell_empty(b, from, to, k));
        }
    }
}

proof fn lemma_file_path(b: Board, from: (usize, usize), to: (usize, usize))
    requires
        valid_cell(from),
        valid_cell(to),
        from.0 == to.0,
    ensures
        file_clear(b, from.0 as int, min(from.1 as int, to.1 as int), max(from.1 as int, to.1 as int))
            <==> path_clear(b, from, to),
{
    let (fx, fy, ty) = (from.0 as int, from.1 as int, to.1 as int);
    let (lo, hi) = (min(fy, ty), max(fy, ty));
    if file_clear(b, fx, lo, hi) {
        assert forall|k: int| 0 < k < max(abs(to.0 - from.0), abs(ty - fy)) implies #[trigger] line_cell_empty(
            b,
            from,
            to,
            k,
        ) by {
            assert(b.is_empty_at(fx, step(fy, ty - fy, k)));
        }
    }
    if path_clear(b, from, to) {
        assert forall|y: int| lo < y < hi implies #[trigger] b.is_empty_at(fx, y) by {
            let k = abs(y - fy);
            assert(line_cell_empty(b, from, to, k));
        }
    }
}

/// A rook moving along a rank or file, a bishop moving along a diagonal, and
/// a queen moving along either, onto a cell not held by its own color, may
/// move exactly when every cell strictly between is empty.
pub proof fn lemma_sliding_move_needs_clear_path(b: Board, from: (usize, usize), to: (usize, usize))
    requires
        valid_cell(from),
        valid_cell(to),
        b.at(from.0 as int, from.1 as int) is Some,
        !holds_color(b, to, b.at(from.0 as int, from.1 as int)->0.color),
        ({
            let kind = b.at(from.0 as int, from.1 as int)->0.kind;
            ||| kind == PieceKind::Rook && straight_line(from, to)
            ||| kind == PieceKind::Bishop && diagonal_line(from, to)
            ||| kind == PieceKind::Queen && (straight_line(from, to) || diagonal_line(from, to))
        }),
    ensures
        legal_move(b, from, to) <==> path_clear(b, from, to),
{
    if from.1 == to.1 {
        lemma_rank_path(b, from, to);
    } else if from.0 == to.0 {
        lemma_file_path(b, from, to);
    }
}

/// No piece may move onto a cell held by a piece of its own color.
pub proof fn lemma_own_color_destination_illegal(b: Board, from: (usize, usize), to: (usize, usize))
    requires
        valid_cell(from),
        valid_cell(to),
        b.at(from.0 as int, from.1 as int) is Some,
        holds_color(b, to, b.at(from.0 as int, from.1 as int)->0.color),
    ensures
        !legal_move(b, from, to),
        !safe_move(b, from, to),
{
}

/// A pawn takes a piece only by a diagonal step of one cell forward; in
/// particular it never takes straight ahead.
pub proof fn lemma_pawn_takes_only_diagonally(b: Board, from: (usize, usize), to: (usize, usize))
    requires
        valid_cell(from),
        valid_cell(to),
        b.at(from.0 as int, from.1 as int) is Some,
        b.at(from.0 as int, from.1 as int)->0.kind == PieceKind::Pawn,
        b.at(to.0 as int, to.1 as int) is Some,
        legal_move(b, from, to),
    ensures
        forward_delta(b, b.at(from.0 as int, from.1 as int)->0.color, from, to) == 1,
        abs(to.0 - from.0) == 1,
{
}

/// A pawn steps sideways onto an empty cell only en passant: one rank
/// forward, onto the file of an opposing pawn that stands beside it, has made
/// a single move, a two-rank advance, and made it on the move just before
/// this one.
pub proof fn lemma_en_passant_only_after_leap(b: Board, from: (usize, usize), to: (usize, usize))
    requires
        valid_cell(from),
        valid_cell(to),
        b.at(from.0 as int, from.1 as int) is Some,
        b.at(from.0 as int, from.1 as int)->0.kind == PieceKind::Pawn,
        b.is_empty_at(to.0 as int, to.1 as int),
        abs(to.0 - from.0) == 1,
    ensures
        legal_move(b, from, to) <==> forward_delta(b, b.at(from.0 as int, from.1 as int)->0.color, from, to) == 1
            && en_passant_rule(b, from, to),
        en_passant_rule(b, from, to) ==> {
            let q = b.at(to.0 as int, from.1 as int)->0;
            &&& b.at(to.0 as int, from.1 as int) is Some
            &&& q.kind == PieceKind::Pawn
            &&& q.color != b.at(from.0 as int, from.1 as int)->0.color
            &&& q.made_n_moves == 1
            &&& q.has_pawn_made_leap
            &&& q.last_moved_at_move_number + 1 == b.number_of_moves
        },
{
}

/// An en passant capture that is open now is closed after any other move
/// that leaves the passed pawn's cell alone.
pub proof fn lemma_en_passant_expires(
    b: Board,
    from: (usize, usize),
    to: (usize, usize),
    other_from: (usize, usize),
    other_to: (usize, usize),
)
    requires
        valid_cell(from),
        valid_cell(to),
        valid_cell(other_from),
        valid_cell(other_to),
        b.at(from.0 as int, from.1 as int) is Some,
        b.at(other_from.0 as int, other_from.1 as int) is Some,
        b.number_of_moves < u16::MAX,
        en_passant_rule(b, from, to),
        other_from != (to.0, from.1),
        other_to != (to.0, from.1),
    ensures
        !en_passant_rule(after_move(b, other_from, other_to), from, to),
{
    let (cx, cy) = (to.0 as int, from.1 as int);
    let taken = if takes_en_passant(b, other_from, other_to) {
        b.with_cell(other_to.0 as int, other_from.1 as int, None)
    } else {
        b
    };
    if takes_en_passant(b, other_from, other_to) {
        lemma_with_cell_at(b, other_to.0 as int, other_from.1 as int, None, cx, cy);
    }
    let moved = Some(moved_piece(b, other_from, other_to));
    let placed = taken.with_cell(other_to.0 as int, other_to.1 as int, moved);
    lemma_with_cell_at(taken, other_to.0 as int, other_to.1 as int, moved, cx, cy);
    lemma_with_cell_at(placed, other_from.0 as int, other_from.1 as int, None, cx, cy);
}

} // verus!
