//! The response-classification state machine of the page fetcher.
//!
//! One physical request yields one [`FetchOutcome`]. The caller drives the
//! loop: send a GET, classify the response, then either return the body,
//! follow the redirect, retry the same URL after the given wait, or abort.

use vstd::prelude::*;
use crate::errors::FetchError;
use crate::text::{digits_val, parse_u64, strip_plus, valid_u64_number};
use crate::urls::{contains_login, has_login, resolve_location, resolve_spec};
use crate::DEFAULT_RETRY_SECS;
use crate::REDIRECT_DELAY_SECS;
use crate::SUCCESS_COOLDOWN_SECS;

verus! {

/// What one physical request attempt resolved to.
#[derive(Debug, Clone, PartialEq, Eq)]
pub enum FetchOutcome {
    /// HTTP 200: the body to hand on, after the self-imposed cooldown.
    Success(String),
    /// HTTP 301/302 with a non-login target: the absolute URL to request
    /// next, after the redirect delay.
    RedirectTo(String),
    /// A transient status: retry the same URL after this many seconds.
    Retryable(u64),
    /// Anything terminal: stop and report.
    Fatal(FetchError),
}

/// The statuses retried after a delay: temporary unavailability.
pub open spec fn is_transient_status(status: u16) -> bool {
    status == 503 || status == 408 || status == 429 || status == 525 || status == 502 || status
        == 524
}

/// The redirect statuses the engine follows itself.
pub open spec fn is_redirect_status(status: u16) -> bool {
    status == 301 || status == 302
}

/// Seconds to wait before a transient retry: the retry header's value when
/// it parses as an unsigned decimal number (an optional leading plus sign,
/// then digits), else the default.
pub open spec fn retry_wait_spec(retry_after: Option<Seq<char>>) -> u64 {
    match retry_after {
        Some(s) => if valid_u64_number(s) {
            digits_val(strip_plus(s)) as u64
        } else {
            DEFAULT_RETRY_SECS
        },
        None => DEFAULT_RETRY_SECS,
    }
}

fn is_transient(status: u16) -> (r: bool)
    ensures
        r == is_transient_status(status),
{
    status == 503 || status == 408 || status == 429 || status == 525 || status == 502 || status
        == 524
}

/// Seconds to wait before retrying a transient failure.
pub fn retry_wait(retry_after: Option<&str>) -> (r: u64)
    ensures
        r == retry_wait_spec(retry_after.deep_view()),
{
    match retry_after {
        Some(s) => match parse_u64(s) {
            Some(v) => v,
            None => DEFAULT_RETRY_SECS,
        },
        None => DEFAULT_RETRY_SECS,
    }
}

/// Classifies one response of one GET request into the outcome the fetch
/// loop acts on, per the status-code policy table:
/// 200 is success; 301/302 is followed to its resolved `Location` unless
/// the target involves a login page or the header is missing, both
/// terminal; the transient statuses are retried after the parsed or
/// default wait; every other status is fatal and never retried.
pub fn classify_response(
    status: u16,
    body: String,
    location: Option<&str>,
    retry_after: Option<&str>,
) -> (r: FetchOutcome)
    ensures
        r is Success <==> status == 200,
        r matches FetchOutcome::Success(b) ==> b == body,
        r is Retryable <==> is_transient_status(status),
        r matches FetchOutcome::Retryable(w) ==> w == retry_wait_spec(retry_after.deep_view()),
        r is RedirectTo <==> is_redirect_status(status) && (location matches Some(loc)
            && !has_login(loc@)),
        r matches FetchOutcome::RedirectTo(u) ==> (location matches Some(loc) && u@
            == resolve_spec(loc@)),
        is_redirect_status(status) && location is None ==> r == FetchOutcome::Fatal(
            FetchError::MissingLocation(status),
        ),
        is_redirect_status(status) && (location matches Some(loc) && has_login(loc@)) ==> r
            == FetchOutcome::Fatal(FetchError::LoginRedirect(status)),
        !(status == 200 || is_transient_status(status) || is_redirect_status(status)) ==> r
            == FetchOutcome::Fatal(FetchError::UnknownStatus(status)),
{
    if status == 200 {
        FetchOutcome::Success(body)
    } else if is_transient(status) {
        FetchOutcome::Retryable(retry_wait(retry_after))
    } else if status == 301 || status == 302 {
        match location {
            None => FetchOutcome::Fatal(FetchError::MissingLocation(status)),
            Some(loc) => {
                if contains_login(loc) {
                    FetchOutcome::Fatal(FetchError::LoginRedirect(status))
                } else {
                    FetchOutcome::RedirectTo(resolve_location(loc))
                }
            },
        }
    } else {
        FetchOutcome::Fatal(FetchError::UnknownStatus(status))
    }
}

/// One logical request in flight: the URL to ask for next and how often
/// that URL has been attempted. The counter is mutated only by the fetch
/// loop's own stepping, never shared across requests.
pub struct PageRequest {
    pub url: String,
    pub attempts: u64,
}

impl PageRequest {
    /// A fresh request for a URL, not yet attempted.
    pub fn new(url: String) -> (r: PageRequest)
        ensures
            r.url == url,
            r.attempts == 0,
    {
        PageRequest { url, attempts: 0 }
    }

    /// Steps the request past one classified response. A transient failure
    /// retries the same URL and counts the attempt; a followed redirect
    /// moves to the target with a fresh count; a terminal outcome leaves
    /// the request as it is and stops the loop.
    pub fn advance(&mut self, outcome: &FetchOutcome) -> (more: bool)
        requires
            old(self).attempts < u64::MAX,
        ensures
            outcome is Retryable ==> more && final(self).url == old(self).url
                && final(self).attempts == old(self).attempts + 1,
            outcome matches FetchOutcome::RedirectTo(t) ==> more && final(self).url@ == t@
                && final(self).attempts == 0,
            outcome is Success || outcome is Fatal ==> !more && final(self).url == old(self).url
                && final(self).attempts == old(self).attempts,
    {
        match outcome {
            FetchOutcome::Retryable(_) => {
                self.attempts = self.attempts + 1;
                true
            },
            FetchOutcome::RedirectTo(t) => {
                self.url = t.clone();
                self.attempts = 0;
                true
            },
            FetchOutcome::Success(_) => false,
            FetchOutcome::Fatal(_) => false,
        }
    }
}

/// Seconds the fetch loop sleeps before acting on an outcome: the
/// post-success cooldown, the redirect-follow delay, or the transient
/// retry wait; a fatal outcome is acted on at once.
pub fn wait_before(outcome: &FetchOutcome) -> (d: u64)
    ensures
        outcome is Success ==> d == SUCCESS_COOLDOWN_SECS,
        outcome is RedirectTo ==> d == REDIRECT_DELAY_SECS,
        outcome matches FetchOutcome::Retryable(w) ==> d == w,
        outcome is Fatal ==> d == 0,
{
    match outcome {
        FetchOutcome::Success(_) => SUCCESS_COOLDOWN_SECS,
        FetchOutcome::RedirectTo(_) => REDIRECT_DELAY_SECS,
        FetchOutcome::Retryable(w) => *w,
        FetchOutcome::Fatal(_) => 0,
    }
}

} // verus!
