use ao3_api_rs::errors::FetchError;
use ao3_api_rs::fetch::{classify_response, wait_before, FetchOutcome, PageRequest};
use ao3_api_rs::{DEFAULT_RETRY_SECS, REDIRECT_DELAY_SECS, SUCCESS_COOLDOWN_SECS};

fn body() -> String {
    "<html>page</html>".to_string()
}

#[test]
fn success_returns_body_after_cooldown() {
    let r = classify_response(200, body(), None, None);
    assert_eq!(r, FetchOutcome::Success(body()));
    assert_eq!(wait_before(&r), SUCCESS_COOLDOWN_SECS);
    let mut req = PageRequest::new("https://archiveofourown.org/works".to_string());
    assert!(!req.advance(&r));
    assert_eq!(req.url, "https://archiveofourown.org/works");
}

#[test]
fn transient_statuses_all_retry_same_url() {
    for status in [503u16, 408, 429, 525, 502, 524] {
        let r = classify_response(status, body(), None, None);
        assert_eq!(r, FetchOutcome::Retryable(DEFAULT_RETRY_SECS));
        let url = "https://archiveofourown.org/works?page=3";
        let mut req = PageRequest::new(url.to_string());
        assert!(req.advance(&r));
        assert_eq!(req.url, url);
        assert_eq!(req.attempts, 1);
        assert!(req.advance(&r));
        assert_eq!(req.url, url);
        assert_eq!(req.attempts, 2);
    }
}

#[test]
fn retry_after_header_sets_the_wait() {
    let r = classify_response(429, body(), None, Some("12"));
    assert_eq!(r, FetchOutcome::Retryable(12));
    assert_eq!(wait_before(&r), 12);
}

#[test]
fn plus_signed_retry_after_parses_as_rust_does() {
    // `u64::from_str` takes one optional leading '+'.
    let r = classify_response(503, body(), None, Some("+7"));
    assert_eq!(r, FetchOutcome::Retryable(7));
}

#[test]
fn unparseable_retry_after_falls_back_to_default() {
    for bad in ["soon", "", "12s", "-3", "+", "++7", "99999999999999999999999"] {
        let r = classify_response(503, body(), None, Some(bad));
        assert_eq!(r, FetchOutcome::Retryable(DEFAULT_RETRY_SECS));
    }
}

#[test]
fn redirect_with_relative_location_resolves_against_base() {
    for status in [301u16, 302] {
        let r = classify_response(status, body(), Some("/works?page=2"), None);
        assert_eq!(
            r,
            FetchOutcome::RedirectTo("https://archiveofourown.org/works?page=2".to_string())
        );
        assert_eq!(wait_before(&r), REDIRECT_DELAY_SECS);
        let mut req = PageRequest::new("https://archiveofourown.org/old".to_string());
        assert!(req.advance(&r));
        assert_eq!(req.url, "https://archiveofourown.org/works?page=2");
        assert_eq!(req.attempts, 0);
    }
}

#[test]
fn redirect_with_absolute_location_is_kept() {
    let r = classify_response(302, body(), Some("https://archiveofourown.org/new"), None);
    assert_eq!(
        r,
        FetchOutcome::RedirectTo("https://archiveofourown.org/new".to_string())
    );
}

#[test]
fn redirect_to_login_is_terminal() {
    for status in [301u16, 302] {
        let r = classify_response(status, body(), Some("/users/login?restricted=true"), None);
        assert_eq!(r, FetchOutcome::Fatal(FetchError::LoginRedirect(status)));
        let mut req = PageRequest::new("https://archiveofourown.org/works".to_string());
        assert!(!req.advance(&r));
        assert_eq!(req.url, "https://archiveofourown.org/works");
    }
}

#[test]
fn redirect_without_location_is_fatal() {
    let r = classify_response(302, body(), None, None);
    assert_eq!(r, FetchOutcome::Fatal(FetchError::MissingLocation(302)));
}

#[test]
fn unknown_statuses_fail_fatally_and_never_retry() {
    for status in [400u16, 401, 403, 404, 418, 500, 501, 520] {
        let r = classify_response(status, body(), Some("/elsewhere"), Some("12"));
        assert_eq!(r, FetchOutcome::Fatal(FetchError::UnknownStatus(status)));
        let mut req = PageRequest::new("https://archiveofourown.org/works".to_string());
        assert!(!req.advance(&r));
        assert_eq!(req.attempts, 0);
        assert_eq!(wait_before(&r), 0);
    }
}
