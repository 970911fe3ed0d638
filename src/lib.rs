//! A chess rule engine: board state, per-piece move legality, attack
//! detection, move execution with en passant bookkeeping, self-check
//! filtering of destinations, and a compact bit encoding of destination grids.
pub mod datamodel;
pub mod moves;
pub mod legality;
pub mod game;
pub mod highlight;
pub mod laws;

pub use datamodel::{Board, Color, Piece, PieceKind};
