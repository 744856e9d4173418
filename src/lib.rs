//! Rule engine of a falling-block puzzle game: the playing field, the falling
//! piece and its rotation system, line clears and the lock-delay timing.

pub mod engine;
pub mod game;
pub mod geometry;
pub mod kick_tables;
pub mod matrix;
pub mod piece;
pub mod timing;

pub use engine::{Engine, MoveKind};
pub use game::{Game, Input, InputAction, KeyAction};
pub use geometry::{Coordinate, GridIncrement, Offset};
pub use matrix::{Color, Matrix};
pub use kick_tables::SrsPlus;
pub use timing::{DeltaTime, Timer};
pub use piece::{Kind, Kind as PieceKind, Piece, RotateKind, Rotation};
