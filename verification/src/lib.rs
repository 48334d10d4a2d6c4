//! Core of a multi-tenant game-hosting server: wire-protocol codec,
//! lobby state machine, per-match play coordination, archival records,
//! and the bundled turn-based games.

pub mod tuning;
pub mod json;
pub mod archive;
pub mod proto;
pub mod lobby;
pub mod play;
pub mod games;
pub mod session;
