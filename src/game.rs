//! Setting up a board and playing moves on it.
use vstd::prelude::*;
use crate::datamodel::{on_board, opponent, valid_cell, Board, Color, Piece, PieceKind};
use crate::moves::{abs, en_passant_rule, is_en_passant_move};

verus! {

/// The kind of piece that starts on `file` of a back rank. Queen and king
/// trade places when the player plays Dark.
pub open spec fn back_rank_kind(player_side: Color, file: int) -> PieceKind {
    if file == 0 || file == 7 {
        PieceKind::Rook
    } else if file == 1 || file == 6 {
        PieceKind::Knight
    } else if file == 2 || file == 5 {
        PieceKind::Bishop
    } else if (file == 3) == (player_side == Color::Light) {
        PieceKind::Queen
    } else {
        PieceKind::King
    }
}

/// What stands on `(file, rank)` at the start of a game in which the player
/// plays `player_side`: the player's pieces on ranks 0 and 1, the opponent's
/// on ranks 7 and 6, all of them unmoved.
pub open spec fn initial_at(player_side: Color, file: int, rank: int) -> Option<Piece> {
    let other_side = opponent(player_side);
    let fresh = |c: Color, k: PieceKind|
        Piece { color: c, kind: k, made_n_moves: 0, last_moved_at_move_number: 0, has_pawn_made_leap: false };
    if rank == 0 {
        Some(fresh(player_side, back_rank_kind(player_side, file)))
    } else if rank == 1 {
        Some(fresh(player_side, PieceKind::Pawn))
    } else if rank == 6 {
        Some(fresh(other_side, PieceKind::Pawn))
    } else if rank == 7 {
        Some(fresh(other_side, back_rank_kind(player_side, file)))
    } else {
        None
    }
}

/// A king of color `c` stands on `cell`.
pub open spec fn is_king_of(b: Board, c: Color, cell: (usize, usize)) -> bool {
    &&& b.at(cell.0 as int, cell.1 as int) is Some
    &&& b.at(cell.0 as int, cell.1 as int)->0.color == c
    &&& b.at(cell.0 as int, cell.1 as int)->0.kind == PieceKind::King
}

/// Some cell holds a king of color `c`.
pub open spec fn has_king(b: Board, c: Color) -> bool {
    exists|cell: (usize, usize)| valid_cell(cell) && #[trigger] is_king_of(b, c, cell)
}

/// `a` comes before `b` when the board is scanned file by file, each file
/// from rank 0 upward.
pub open spec fn scanned_before(a: (usize, usize), b: (usize, usize)) -> bool {
    a.0 < b.0 || (a.0 == b.0 && a.1 < b.1)
}

/// `cell` holds the first king of color `c` in scanning order.
pub open spec fn first_king(b: Board, c: Color, cell: (usize, usize)) -> bool {
    &&& valid_cell(cell)
    &&& is_king_of(b, c, cell)
    &&& forall|other: (usize, usize)|
        valid_cell(other) && scanned_before(other, cell) ==> !#[trigger] is_king_of(b, c, other)
}

/// At most one cell is the first king of a color.
pub proof fn lemma_first_king_unique(b: Board, c: Color, k1: (usize, usize), k2: (usize, usize))
    requires
        first_king(b, c, k1),
        first_king(b, c, k2),
    ensures
        k1 == k2,
{
    if scanned_before(k1, k2) {
        assert(!is_king_of(b, c, k1));
    } else if scanned_before(k2, k1) {
        assert(!is_king_of(b, c, k2));
    }
}

/// The piece from `from` as it stands on `to` after moving there on `b`: one
/// more move made, stamped with the move count of `b`, and, for a pawn that
/// advanced two ranks, marked as having leapt.
pub open spec fn moved_piece(b: Board, from: (usize, usize), to: (usize, usize)) -> Piece {
    let p = b.at(from.0 as int, from.1 as int)->0;
    Piece {
        made_n_moves: (p.made_n_moves + 1) as u16,
        last_moved_at_move_number: b.number_of_moves,
        has_pawn_made_leap: p.has_pawn_made_leap || (p.kind == PieceKind::Pawn && abs(to.1 - from.1) == 2),
        ..p
    }
}

/// The move from `from` to `to` on `b` takes a pawn en passant.
pub open spec fn takes_en_passant(b: Board, from: (usize, usize), to: (usize, usize)) -> bool {
    b.at(from.0 as int, from.1 as int)->0.kind == PieceKind::Pawn && en_passant_rule(b, from, to)
}

/// The board after the piece on `from` moved to `to`: whatever stood on `to`
/// is taken, a pawn taken en passant leaves its cell, `from` is emptied, one
/// more move is counted and the other side is to move.
pub open spec fn after_move(b: Board, from: (usize, usize), to: (usize, usize)) -> Board {
    let taken = if takes_en_passant(b, from, to) {
        b.with_cell(to.0 as int, from.1 as int, None)
    } else {
        b
    };
    let placed = taken.with_cell(to.0 as int, to.1 as int, Some(moved_piece(b, from, to))).with_cell(
        from.0 as int,
        from.1 as int,
        None,
    );
    Board { number_of_moves: (b.number_of_moves + 1) as u16, turn: opponent(b.turn), ..placed }
}

impl Board {
    /// The opening position for a player who plays `player_side`, shown on
    /// ranks 0 and 1. Light moves first.
    pub fn new(player_side: Color) -> (r: Board)
        ensures
            forall|f: int, k: int| on_board(f, k) ==> #[trigger] r.at(f, k) == initial_at(player_side, f, k),
            r.is_reversed == (player_side == Color::Dark),
            r.turn == Color::Light,
            r.color_of_king_under_attack is None,
            r.number_of_moves == 0,
    {
        let other_side: Color;
        let is_reversed: bool;
        match player_side {
            Color::Dark => {
                other_side = Color::Light;
                is_reversed = true;
            },
            Color::Light => {
                other_side = Color::Dark;
                is_reversed = false;
            },
        }
        let light = player_side == Color::Light;
        let (fourth, fifth) = if light {
            (PieceKind::Queen, PieceKind::King)
        } else {
            (PieceKind::King, PieceKind::Queen)
        };
        let mut state: [[Option<Piece>; 8]; 8] = [
            [
                Some(Piece::new(other_side, PieceKind::Rook)),
                Some(Piece::new(other_side, PieceKind::Knight)),
                Some(Piece::new(other_side, PieceKind::Bishop)),
                Some(Piece::new(other_side, fourth)),
                Some(Piece::new(other_side, fifth)),
                Some(Piece::new(other_side, PieceKind::Bishop)),
                Some(Piece::new(other_side, PieceKind::Knight)),
                Some(Piece::new(other_side, PieceKind::Rook)),
            ],
            [None, None, None, None, None, None, None, None],
            [None, None, None, None, None, None, None, None],
            [None, None, None, None, None, None, None, None],
            [None, None, None, None, None, None, None, None],
            [None, None, None, None, None, None, None, None],
            [None, None, None, None, None, None, None, None],
            [
                Some(Piece::new(player_side, PieceKind::Rook)),
                Some(Piece::new(player_side, PieceKind::Knight)),
                Some(Piece::new(player_side, PieceKind::Bishop)),
                Some(Piece::new(player_side, fourth)),
                Some(Piece::new(player_side, fifth)),
                Some(Piece::new(player_side, PieceKind::Bishop)),
                Some(Piece::new(player_side, PieceKind::Knight)),
                Some(Piece::new(player_side, PieceKind::Rook)),
            ],
        ];
        let mut x_pos: usize = 0;
        while x_pos < 8
            invariant
                x_pos <= 8,
                other_side == opponent(player_side),
                forall|f: int, k: int|
                    on_board(f, k) ==> #[trigger] state[7 - k][f] == if (k == 1 || k == 6) && f >= x_pos {
                        None
                    } else {
                        initial_at(player_side, f, k)
                    },
            decreases 8 - x_pos,
        {
            state[1][x_pos] = Some(Piece::new(other_side, PieceKind::Pawn));
            state[6][x_pos] = Some(Piece::new(player_side, PieceKind::Pawn));
            x_pos = x_pos + 1;
        }
        Board { state, is_reversed, turn: Color::Light, color_of_king_under_attack: None, number_of_moves: 0 }
    }

    /// Where the first king of `color` stands, scanning file by file, each
    /// file from rank 0 upward; `None` when there is no king of that color.
    pub fn find_king_position(&self, color: Color) -> (r: Option<(usize, usize)>)
        ensures
            match r {
                Some(cell) => first_king(*self, color, cell),
                None => !has_king(*self, color),
            },
    {
        let mut x_pos: usize = 0;
        while x_pos < 8
            invariant
                x_pos <= 8,
                forall|cell: (usize, usize)| valid_cell(cell) && cell.0 < x_pos ==> !#[trigger] is_king_of(*self, color, cell),
            decreases 8 - x_pos,
        {
            let mut y_pos: usize = 0;
            while y_pos < 8
                invariant
                    x_pos < 8,
                    y_pos <= 8,
                    forall|cell: (usize, usize)|
                        valid_cell(cell) && (cell.0 < x_pos || (cell.0 == x_pos && cell.1 < y_pos))
                            ==> !#[trigger] is_king_of(*self, color, cell),
                decreases 8 - y_pos,
            {
                match self.piece_at(&(x_pos, y_pos)) {
                    Some(piece) => {
                        if piece.color == color && piece.kind == PieceKind::King {
                            return Some((x_pos, y_pos));
                        }
                    },
                    None => {},
                }
                y_pos = y_pos + 1;
            }
            x_pos = x_pos + 1;
        }
        None
    }

    /// Where the first king of `color` stands, scanning file by file, each
    /// file from rank 0 upward. A board without such a king is outside the
    /// game's invariant and is not accepted.
    pub fn get_king_position(&self, color: Color) -> (r: (usize, usize))
        requires
            has_king(*self, color),
        ensures
            first_king(*self, color, r),
    {
        self.find_king_position(color).unwrap()
    }

    /// Empties `cell`.
    pub fn clear_cell(&mut self, cell_position: &(usize, usize))
        requires
            valid_cell(*cell_position),
        ensures
            *final(self) == old(self).with_cell(cell_position.0 as int, cell_position.1 as int, None),
    {
        self.state[7 - cell_position.1][cell_position.0] = None;
        assert(self.state =~= old(self).with_cell(cell_position.0 as int, cell_position.1 as int, None).state);
    }

    /// Places `piece` on `cell`, replacing whatever stood there.
    pub fn put_piece_at_cell(&mut self, cell_position: &(usize, usize), piece: Piece)
        requires
            valid_cell(*cell_position),
        ensures
            *final(self) == old(self).with_cell(cell_position.0 as int, cell_position.1 as int, Some(piece)),
    {
        self.state[7 - cell_position.1][cell_position.0] = Some(piece);
        assert(self.state =~= old(self).with_cell(cell_position.0 as int, cell_position.1 as int, Some(piece)).state);
    }

    /// Plays the piece on `from` to `to`. Legality is the caller's concern;
    /// only the en passant case is recognised here, to remove the pawn taken.
    pub fn make_a_move(&mut self, from_cell_position: &(usize, usize), to_cell_position: &(usize, usize))
        requires
            valid_cell(*from_cell_position),
            valid_cell(*to_cell_position),
            old(self).at(from_cell_position.0 as int, from_cell_position.1 as int) is Some,
            old(self).at(from_cell_position.0 as int, from_cell_position.1 as int)->0.made_n_moves < u16::MAX,
            old(self).number_of_moves < u16::MAX,
        ensures
            *final(self) == after_move(*old(self), *from_cell_position, *to_cell_position),
    {
        let piece = self.piece_at(from_cell_position).unwrap();
        let is_en_passant_case = piece.kind == PieceKind::Pawn && is_en_passant_move(
            self,
            from_cell_position,
            to_cell_position,
        );
        let is_leap = piece.kind == PieceKind::Pawn && (from_cell_position.1 == to_cell_position.1 + 2
            || to_cell_position.1 == from_cell_position.1 + 2);
        let moved = Piece {
            made_n_moves: piece.made_n_moves + 1,
            last_moved_at_move_number: self.number_of_moves,
            has_pawn_made_leap: piece.has_pawn_made_leap || is_leap,
            ..piece
        };
        // A piece on `to` is taken by being overwritten.
        if is_en_passant_case {
            self.clear_cell(&(to_cell_position.0, from_cell_position.1));
        }
        self.put_piece_at_cell(to_cell_position, moved);
        self.clear_cell(from_cell_position);
        self.number_of_moves = self.number_of_moves + 1;
        self.turn = match self.turn {
            Color::Light => Color::Dark,
            Color::Dark => Color::Light,
        };
    }
}

} // verus!
