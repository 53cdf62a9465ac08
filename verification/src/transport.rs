//! The transport client's configuration: redirects are classified and
//! replayed by the page fetcher, never auto-followed; cookies persist
//! across calls for session-authenticated fetches; the timeout is long and
//! fixed to tolerate slow responses.

use vstd::prelude::*;
use crate::TRANSPORT_TIMEOUT_SECS;

verus! {

/// Immutable configuration of the transport client, fixed at construction.
pub struct TransportConfig {
    /// Identifying request label (the user agent).
    pub user_agent: String,
    /// Whether a persistent cookie jar is attached.
    pub cookie_store: bool,
    /// Fixed request timeout, in seconds.
    pub timeout_secs: u64,
    /// Whether the transport follows redirects by itself.
    pub auto_redirect: bool,
}

impl TransportConfig {
    /// The one configuration the engine runs with: the given label, a
    /// cookie jar, the long fixed timeout, and no automatic redirects.
    pub fn configure(label: &str) -> (c: TransportConfig)
        ensures
            c.user_agent@ == label@,
            c.cookie_store == true,
            c.timeout_secs == TRANSPORT_TIMEOUT_SECS,
            c.auto_redirect == false,
    {
        TransportConfig {
            user_agent: String::from_str(label),
            cookie_store: true,
            timeout_secs: TRANSPORT_TIMEOUT_SECS,
            auto_redirect: false,
        }
    }
}

} // verus!
