//! Legality of a move for whatever piece stands on the source cell, attack
//! detection, and the moves that keep the mover's king safe.
use vstd::prelude::*;
use crate::datamodel::{opponent, valid_cell, Board, Color, PieceKind};
use crate::game::{first_king, lemma_first_king_unique};
use crate::moves::{
    abs, bishop_rule, can_move_bishop, can_move_king, can_move_knight, can_move_pawn, can_move_queen,
    can_move_rook, king_rule, knight_rule, pawn_rule, queen_rule, rook_rule,
};

verus! {

/// Pieces of color `c` advance toward decreasing ranks on `b`.
pub open spec fn mover_reversed(b: Board, c: Color) -> bool {
    b.is_reversed == (c == Color::Light)
}

/// The rank delta from `from` to `to`, counted positive in the direction in
/// which pieces of color `c` advance.
pub open spec fn forward_delta(b: Board, c: Color, from: (usize, usize), to: (usize, usize)) -> int {
    if mover_reversed(b, c) {
        from.1 - to.1
    } else {
        to.1 - from.1
    }
}

/// The geometry rule of piece kind `k`.
pub open spec fn kind_rule(b: Board, k: PieceKind, v: int, h: int, from: (usize, usize), to: (usize, usize)) -> bool {
    match k {
        PieceKind::Pawn => pawn_rule(b, v, h, from, to),
        PieceKind::Rook => rook_rule(b, v, h, from, to),
        PieceKind::Bishop => bishop_rule(b, v, h, from, to),
        PieceKind::Knight => knight_rule(v, h),
        PieceKind::Queen => queen_rule(b, v, h, from, to),
        PieceKind::King => king_rule(v, h),
    }
}

/// `to` holds a piece of color `c`.
pub open spec fn holds_color(b: Board, cell: (usize, usize), c: Color) -> bool {
    b.at(cell.0 as int, cell.1 as int) is Some && b.at(cell.0 as int, cell.1 as int)->0.color == c
}

/// The piece on `from` may move to `to`: `from` holds a piece, `to` does not
/// hold a piece of the same color, and the geometry of the piece's kind allows
/// the move. The king's own safety is not considered here.
pub open spec fn legal_move(b: Board, from: (usize, usize), to: (usize, usize)) -> bool {
    match b.at(from.0 as int, from.1 as int) {
        None => false,
        Some(p) => {
            &&& !holds_color(b, to, p.color)
            &&& kind_rule(b, p.kind, forward_delta(b, p.color, from, to), abs(to.0 - from.0), from, to)
        },
    }
}

/// Whether the piece on `from` may move to `to`; false when `from` is empty.
pub fn can_move_piece(board: &Board, from_position: &(usize, usize), to_position: &(usize, usize)) -> (r: bool)
    requires
        valid_cell(*from_position),
        valid_cell(*to_position),
    ensures
        r == legal_move(*board, *from_position, *to_position),
{
    let piece = match board.piece_at(from_position) {
        Some(p) => p,
        None => return false,
    };
    match board.piece_at(to_position) {
        Some(piece_to_take) => {
            if piece_to_take.color == piece.color {
                return false;
            }
        },
        None => {},
    }
    let is_reversed = (board.is_reversed && piece.color == Color::Light) || (!board.is_reversed
        && piece.color == Color::Dark);
    let rank_diff: i8 = to_position.1 as i8 - from_position.1 as i8;
    let vertical_diff: i8 = if is_reversed { -rank_diff } else { rank_diff };
    let file_diff: i8 = to_position.0 as i8 - from_position.0 as i8;
    let horizontal_diff: i8 = if file_diff < 0 { -file_diff } else { file_diff };
    match piece.kind {
        PieceKind::Pawn => can_move_pawn(board, vertical_diff, horizontal_diff, from_position, to_position),
        PieceKind::Rook => can_move_rook(board, vertical_diff, horizontal_diff, from_position, to_position),
        PieceKind::Bishop => can_move_bishop(board, vertical_diff, horizontal_diff, from_position, to_position),
        PieceKind::Knight => can_move_knight(vertical_diff, horizontal_diff),
        PieceKind::Queen => can_move_queen(board, vertical_diff, horizontal_diff, from_position, to_position),
        PieceKind::King => can_move_king(vertical_diff, horizontal_diff),
    }
}

/// A piece of color `c` on `cell` may move to `target`.
pub open spec fn attacks_from(b: Board, c: Color, cell: (usize, usize), target: (usize, usize)) -> bool {
    holds_color(b, cell, c) && legal_move(b, cell, target)
}

/// Some piece of color `c` may move to `target`.
pub open spec fn attacked(b: Board, c: Color, target: (usize, usize)) -> bool {
    exists|x: usize, y: usize| x < 8 && y < 8 && #[trigger] attacks_from(b, c, (x, y), target)
}

/// Whether some piece of `color` may move to `position`.
pub fn is_any_piece_attacks_position(board: &Board, color: Color, position: &(usize, usize)) -> (r: bool)
    requires
        valid_cell(*position),
    ensures
        r == attacked(*board, color, *position),
{
    let mut x_pos: usize = 0;
    while x_pos < 8
        invariant
            x_pos <= 8,
            valid_cell(*position),
            forall|x: usize, y: usize| x < x_pos && y < 8 ==> !#[trigger] attacks_from(*board, color, (x, y), *position),
        decreases 8 - x_pos,
    {
        let mut y_pos: usize = 0;
        while y_pos < 8
            invariant
                x_pos < 8,
                y_pos <= 8,
                valid_cell(*position),
                forall|x: usize, y: usize|
                    (x < x_pos && y < 8) || (x == x_pos && y < y_pos) ==> !#[trigger] attacks_from(*board, color, (x, y), *position),
            decreases 8 - y_pos,
        {
            let cell = (x_pos, y_pos);
            match board.piece_at(&cell) {
                Some(piece) => {
                    if piece.color == color && can_move_piece(board, &cell, position) {
                        assert(attacks_from(*board, color, cell, *position));
                        return true;
                    }
                },
                None => {},
            }
            y_pos = y_pos + 1;
        }
        x_pos = x_pos + 1;
    }
    false
}

/// Whether the opponent of the piece on `from` may move to `to`, as it
/// stands before the piece moves there.
pub fn is_king_move_leads_to_check(board: &Board, from_position: &(usize, usize), to_position: &(usize, usize)) -> (r: bool)
    requires
        valid_cell(*from_position),
        valid_cell(*to_position),
        board.at(from_position.0 as int, from_position.1 as int) is Some,
    ensures
        r == attacked(*board, opponent(board.at(from_position.0 as int, from_position.1 as int)->0.color), *to_position),
{
    let king_color = board.piece_at(from_position).unwrap().color;
    let opponent_color = match king_color {
        Color::Light => Color::Dark,
        Color::Dark => Color::Light,
    };
    is_any_piece_attacks_position(board, opponent_color, to_position)
}

/// `b` after a trial move: the piece on `from` is placed on `to` and `from`
/// is emptied. No counter changes and no en passant capture is made.
pub open spec fn trial_board(b: Board, from: (usize, usize), to: (usize, usize)) -> Board {
    b.with_cell(to.0 as int, to.1 as int, b.at(from.0 as int, from.1 as int)).with_cell(
        from.0 as int,
        from.1 as int,
        None,
    )
}

/// After the trial move from `from` to `to`, the first king of the mover's
/// color, if any, is not attacked by the other side.
pub open spec fn keeps_king_safe(b: Board, from: (usize, usize), to: (usize, usize)) -> bool {
    let c = b.at(from.0 as int, from.1 as int)->0.color;
    let t = trial_board(b, from, to);
    forall|k: (usize, usize)| #[trigger] first_king(t, c, k) ==> !attacked(t, opponent(c), k)
}

/// The piece on `from` may move to `to` and doing so leaves its own king
/// unattacked.
pub open spec fn safe_move(b: Board, from: (usize, usize), to: (usize, usize)) -> bool {
    legal_move(b, from, to) && keeps_king_safe(b, from, to)
}

/// Whether moving the piece on `from` to `to` leaves its own king
/// unattacked, decided on a copy of the board on which the move is tried.
pub fn is_move_safe_for_king(board: &Board, from_position: &(usize, usize), to_position: &(usize, usize)) -> (r: bool)
    requires
        valid_cell(*from_position),
        valid_cell(*to_position),
        board.at(from_position.0 as int, from_position.1 as int) is Some,
    ensures
        r == keeps_king_safe(*board, *from_position, *to_position),
{
    let piece = board.piece_at(from_position).unwrap();
    let opponent_color = match piece.color {
        Color::Light => Color::Dark,
        Color::Dark => Color::Light,
    };
    let mut trial = *board;
    trial.put_piece_at_cell(to_position, piece);
    trial.clear_cell(from_position);
    assert(trial == trial_board(*board, *from_position, *to_position));
    match trial.find_king_position(piece.color) {
        Some(king) => {
            let r = !is_any_piece_attacks_position(&trial, opponent_color, &king);
            assert forall|k: (usize, usize)| #[trigger] first_king(trial, piece.color, k) implies !attacked(
                trial,
                opponent_color,
                k,
            ) || !r by {
                lemma_first_king_unique(trial, piece.color, k, king);
            }
            r
        },
        None => true,
    }
}

/// The cells that the piece on `from` may move to without leaving its own
/// king attacked, indexed `[file][rank]`. All false when `from` is empty.
pub fn valid_cells_to_move(board: &Board, from_position: &(usize, usize)) -> (r: [[bool; 8]; 8])
    requires
        valid_cell(*from_position),
    ensures
        forall|x: usize, y: usize|
            x < 8 && y < 8 ==> #[trigger] r[x as int][y as int] == safe_move(*board, *from_position, (x, y)),
        forall|x: usize, y: usize|
            x < 8 && y < 8 && #[trigger] r[x as int][y as int] ==> keeps_king_safe(*board, *from_position, (x, y)),
{
    let mut grid: [[bool; 8]; 8] = [[false; 8]; 8];
    let mut x_pos: usize = 0;
    while x_pos < 8
        invariant
            x_pos <= 8,
            valid_cell(*from_position),
            forall|x: usize, y: usize|
                x < x_pos && y < 8 ==> #[trigger] grid[x as int][y as int] == safe_move(*board, *from_position, (x, y)),
        decreases 8 - x_pos,
    {
        let mut y_pos: usize = 0;
        while y_pos < 8
            invariant
                x_pos < 8,
                y_pos <= 8,
                valid_cell(*from_position),
                forall|x: usize, y: usize|
                    (x < x_pos && y < 8) || (x == x_pos && y < y_pos) ==> #[trigger] grid[x as int][y as int]
                        == safe_move(*board, *from_position, (x, y)),
            decreases 8 - y_pos,
        {
            let to = (x_pos, y_pos);
            let allowed = can_move_piece(board, from_position, &to) && is_move_safe_for_king(
                board,
                from_position,
                &to,
            );
            grid[x_pos][y_pos] = allowed;
            y_pos = y_pos + 1;
        }
        x_pos = x_pos + 1;
    }
    grid
}

} // verus!
