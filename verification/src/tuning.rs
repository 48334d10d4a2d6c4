//! Configured resource caps and timing constants of the server core.

use vstd::prelude::*;

verus! {

/// Capacity of each actor's bounded request queue.
pub const QUEUE_BUFFER: usize = 128;

/// Capacity of the lobby and spectator broadcast channels.
pub const BROADCAST_BUFFER: usize = 512;

/// Capacity of each in-process byte pipe.
pub const PIPE_BUFFER: usize = 65536;

/// Largest binary chunk used when replaying spectator history.
pub const CHUNK_SIZE: usize = 1048576;

/// Largest allowed player capacity of a single match.
pub const MAX_PLAYERS: u64 = 100;

/// Largest number of simultaneously live matches.
pub const MAX_GAME_INSTANCES: usize = 1000;

/// Smallest allowed per-move timeout, in milliseconds.
pub const MIN_TIMEOUT_MS: u64 = 100;

/// Largest allowed per-move timeout, in milliseconds.
pub const MAX_TIMEOUT_MS: u64 = 600_000;

/// Inactivity lifetime of a waiting match, in milliseconds.
pub const INSTANCE_LIFETIME_MS: u64 = 600_000;

/// Grace period after a game ends before the spectator stream is
/// closed, in milliseconds.
pub const END_GRACE_PERIOD_MS: u64 = 250;

} // verus!
