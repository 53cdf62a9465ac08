//! Fetch engine for a session-authenticated, rate-limited archive site:
//! response classification (success / redirect / transient retry / fatal),
//! pagination discovery, and in-order aggregation of multi-page documents.

use vstd::prelude::*;

pub mod aggregate;
pub mod auth;
pub mod errors;
pub mod fetch;
pub mod pagination;
pub mod text;
pub mod transport;
pub mod urls;

verus! {

/// Seconds slept after a successful (HTTP 200) response, as self-imposed
/// rate limiting.
pub const SUCCESS_COOLDOWN_SECS: u64 = 5;

/// Seconds slept before following a redirect.
pub const REDIRECT_DELAY_SECS: u64 = 2;

/// Seconds waited before retrying a transient failure when the response
/// carries no parseable retry delay header.
pub const DEFAULT_RETRY_SECS: u64 = 20;

/// Fixed request timeout, in seconds, of the transport client.
pub const TRANSPORT_TIMEOUT_SECS: u64 = 960;

} // verus!
