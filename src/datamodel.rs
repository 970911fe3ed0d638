use vstd::prelude::*;
use vstd::array::spec_array_update;

verus! {

/// The two sides of the game.
#[derive(PartialEq, Eq, Structural, Debug, Clone, Copy, Hash)]
pub enum Color {
    Light,
    Dark,
}

/// The six kinds of chess pieces.
#[derive(PartialEq, Eq, Structural, Debug, Clone, Copy, Hash)]
pub enum PieceKind {
    Pawn,
    Rook,
    Bishop,
    Knight,
    Queen,
    King,
}

/// A piece together with the history the en passant rule needs.
#[derive(PartialEq, Eq, Structural, Debug, Clone, Copy, Hash)]
pub struct Piece {
    pub color: Color,
    pub kind: PieceKind,
    /// How many moves this piece has made.
    pub made_n_moves: u16,
    /// The board's move count at the time this piece last moved.
    pub last_moved_at_move_number: u16,
    /// Set once this piece, a pawn, has advanced two ranks in one move.
    pub has_pawn_made_leap: bool,
}

impl Piece {
    /// A piece that has not moved yet.
    pub fn new(color: Color, kind: PieceKind) -> (r: Self)
        ensures
            r.color == color,
            r.kind == kind,
            r.made_n_moves == 0,
            r.last_moved_at_move_number == 0,
            !r.has_pawn_made_leap,
    {
        Self { color, kind, made_n_moves: 0, last_moved_at_move_number: 0, has_pawn_made_leap: false }
    }
}

/// The side opposing `c`.
pub open spec fn opponent(c: Color) -> Color {
    match c {
        Color::Light => Color::Dark,
        Color::Dark => Color::Light,
    }
}

/// The 8x8 grid and the game state around it.
///
/// A cell is addressed by `(file, rank)`, both in `0..8`; it is stored at
/// `state[7 - rank][file]`.
#[derive(Clone, Copy)]
pub struct Board {
    pub state: [[Option<Piece>; 8]; 8],
    /// Whether the Light side moves toward decreasing ranks.
    pub is_reversed: bool,
    /// The side to move.
    pub turn: Color,
    pub color_of_king_under_attack: Option<Color>,
    /// How many moves have been made since the start of the game.
    pub number_of_moves: u16,
}

/// A cell address `(file, rank)` lies on the board.
pub open spec fn on_board(file: int, rank: int) -> bool {
    0 <= file < 8 && 0 <= rank < 8
}

impl Board {
    /// What stands at `(file, rank)`.
    pub open spec fn at(&self, file: int, rank: int) -> Option<Piece> {
        self.state[7 - rank][file]
    }

    /// `(file, rank)` holds no piece.
    pub open spec fn is_empty_at(&self, file: int, rank: int) -> bool {
        self.at(file, rank) is None
    }

    /// This board with `(file, rank)` holding `v`.
    pub open spec fn with_cell(self, file: int, rank: int, v: Option<Piece>) -> Board {
        Board {
            state: spec_array_update(self.state, 7 - rank, spec_array_update(self.state[7 - rank], file, v)),
            ..self
        }
    }

    /// What stands at `cell`.
    pub fn piece_at(&self, cell: &(usize, usize)) -> (r: Option<Piece>)
        requires
            valid_cell(*cell),
        ensures
            r == self.at(cell.0 as int, cell.1 as int),
    {
        self.state[7 - cell.1][cell.0]
    }
}

/// Setting one cell changes what stands there and nothing else.
pub proof fn lemma_with_cell_at(b: Board, file: int, rank: int, v: Option<Piece>, f: int, r: int)
    requires
        on_board(file, rank),
        on_board(f, r),
    ensures
        #[trigger] b.with_cell(file, rank, v).at(f, r) == if f == file && r == rank { v } else { b.at(f, r) },
{
}

/// `cell` is a `(file, rank)` address on the board.
pub open spec fn valid_cell(cell: (usize, usize)) -> bool {
    cell.0 < 8 && cell.1 < 8
}

} // verus!
