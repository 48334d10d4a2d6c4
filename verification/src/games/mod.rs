//! The bundled games' rule logic.

pub mod chess;
pub mod roshambo;
pub mod royalur;
