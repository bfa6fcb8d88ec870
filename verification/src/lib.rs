//! Session orchestration core for a shared music-playback party.
//!
//! Participants share control of one playback session: they search for
//! tracks, queue them, and vote to reorder the upcoming queue, while a
//! single serialized reconciliation engine keeps the externally playing
//! track in step with the persisted queue.
//!
//! The crate is organised around two components:
//!
//! * [`hub`] — the connection registry and broadcast hub: which real-time
//!   clients belong to which session, who receives which outbound message,
//!   and which sessions the periodic reconciliation tick targets.
//! * [`engine`] — the playback reconciliation engine: the per-request
//!   business logic over the per-session persisted state ([`store`]),
//!   expressed as functions from state and event to new state, Player
//!   actions, and replies. The Store and the Player themselves are
//!   external collaborators; callers perform the I/O and feed the
//!   results back in.

use vstd::prelude::*;

pub mod config;
pub mod connection;
pub mod engine;
pub mod hub;
pub mod ids;
pub mod messages;
pub mod store;
pub mod track;

verus! {

/// Interval between two reconciliation ticks of the hub, in milliseconds.
pub const POLL_STATE_INTERVAL_MS: u64 = 5000;

/// Delay before the next token refresh after a successful one, in milliseconds.
pub const REFRESH_TOKEN_INTERVAL_MS: u64 = 3_600_000;

/// Backoff delay before retrying a failed token refresh, in milliseconds.
pub const REFRESH_RETRY_INTERVAL_MS: u64 = 10_000;

/// Delay before a session's first token refresh after a client connects,
/// in milliseconds.
pub const INITIAL_REFRESH_INTERVAL_MS: u64 = 1000;

/// Interval between two liveness pings on a client connection, in milliseconds.
pub const HEARTBEAT_INTERVAL_MS: u64 = 5000;

/// A connection that has not answered a ping for longer than this is
/// considered dead, in milliseconds.
pub const CLIENT_TIMEOUT_MS: u64 = 10_000;

/// Search replies carry at most this many results.
pub const SEARCH_RESULT_CAP: usize = 10;

} // verus!
