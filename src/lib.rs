//! Rules engine for hexagonal chess variants: board geometry, piece movement,
//! check / checkmate / stalemate detection, and move application with undo.
pub mod board;
pub mod coords;
pub mod game;
pub mod pieces;
pub mod variants;

pub use coords::{file_rank_to_axial, BoardType, HexCoord};
pub use pieces::{Color, Piece, PieceType};
pub use board::{Board, BoardError, CellColor};
pub use variants::{PawnMovement, SpecialRule, VariantConfig, Variants};
pub use game::{Game, GameError, GameState, Move};
