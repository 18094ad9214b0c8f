pub mod board;
pub mod piece;
pub mod position;

pub use board::Board;
pub use piece::{Color, Piece, Role};
pub use position::Position;
pub mod game;

pub use game::{ChessError, Game, GameState};
