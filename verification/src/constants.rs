//! Fixed policy constants of the peer registry and its wire formats.

use vstd::prelude::*;

verus! {

/// Width in seconds of the bucket that timestamps are truncated to before an
/// address is shared with another peer.
pub const TIMESTAMP_TRUNCATION_SECONDS: i64 = 1800;

/// Seconds after its last message during which a peer that responded is
/// presumed to be still connected.
pub const LIVE_PEER_DURATION_SECONDS: i64 = 120;

/// Number of concurrent requests for more peers made by one crawl.
pub const GET_ADDR_FANOUT: usize = 3;

/// Seconds to wait for the peer service to become ready, and for a reply.
pub const REQUEST_TIMEOUT_SECONDS: u64 = 20;

/// Least number of milliseconds between two connection candidates.
pub const MIN_PEER_CONNECTION_INTERVAL_MILLIS: u64 = 100;

/// Largest size in bytes of one protocol message.
pub const MAX_PROTOCOL_MESSAGE_LEN: usize = 2_000_000;

/// Earliest second, counted from the Unix epoch, that a timestamp can hold:
/// midnight of the first day of the year -262143.
pub const MIN_TIMESTAMP_SECONDS: i64 = -8_334_601_228_800;

/// Latest second, counted from the Unix epoch, that a timestamp can hold:
/// the last second of the year 262142.
pub const MAX_TIMESTAMP_SECONDS: i64 = 8_210_266_876_799;

} // verus!
