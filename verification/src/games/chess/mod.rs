//! The bundled chess game: board rules, move parsing, and the turn
//! logic of a running instance.

pub mod board;
pub mod chess_move;
pub mod instance;
