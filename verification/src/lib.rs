//! A falling-block board engine: the playfield grid, the shuffled bag of
//! upcoming pieces, and the rules by which the falling piece moves,
//! collides and settles.
//!
//! Every executable function carries a contract over a mathematical model
//! of the state, and every contract is proved.

pub mod shape;
pub mod board;
pub mod bag;
pub mod engine;

pub use bag::Bag;
pub use board::{Board, Piece, GRID_HEIGHT, GRID_WIDTH};
pub use engine::{init, update, Tetris};
pub use shape::{offsets_for, PieceKind};
