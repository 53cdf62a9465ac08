use ao3_api_rs::auth::{login_body, parse_login_info, parse_token, LoginInfo};
use ao3_api_rs::errors::Ao3ApiError;
use ao3_api_rs::text::{parse_number_with_commas, parse_u64, u64_to_string};
use ao3_api_rs::transport::TransportConfig;
use ao3_api_rs::TRANSPORT_TIMEOUT_SECS;

#[test]
fn login_info_splits_the_first_two_lines() {
    let info = parse_login_info("alice\nhunter2\n").unwrap();
    assert_eq!(info.username, "alice");
    assert_eq!(info.password, "hunter2");
}

#[test]
fn login_info_strips_carriage_returns() {
    let info = parse_login_info("alice\r\nhunter2\r\n").unwrap();
    assert_eq!(info.username, "alice");
    assert_eq!(info.password, "hunter2");
}

#[test]
fn login_info_needs_a_second_line() {
    assert!(parse_login_info("alice").is_none());
    assert!(parse_login_info("alice\n").is_none());
    assert!(parse_login_info("").is_none());
}

#[test]
fn login_body_is_the_exact_form_encoding() {
    let info = LoginInfo {
        username: "alice".to_string(),
        password: "hunter2".to_string(),
    };
    let body = login_body("tok123", &info);
    assert_eq!(
        body,
        "authenticity_token=tok123&user%5Blogin%5D=alice&user%5Bpassword%5D=hunter2&commit=Log+In"
    );
}

#[test]
fn token_is_read_from_the_dispenser_json() {
    let t = parse_token(r#"{"token":"abc123xyz"}"#).unwrap();
    assert_eq!(t.token, "abc123xyz");
}

#[test]
fn non_json_or_wrong_shape_gives_no_token() {
    assert!(parse_token("not json at all").is_none());
    assert!(parse_token(r#"{"token": 5}"#).is_none());
    assert!(parse_token(r#"{"other":"abc"}"#).is_none());
    assert!(parse_token("[1,2,3]").is_none());
}

#[test]
fn numbers_with_commas_parse_to_their_value() {
    assert_eq!(parse_number_with_commas("1,234"), Ok(1234));
    assert_eq!(parse_number_with_commas("12"), Ok(12));
    assert_eq!(parse_number_with_commas("1,234,567"), Ok(1234567));
    assert_eq!(parse_number_with_commas("4294967295"), Ok(u32::MAX));
}

#[test]
fn a_leading_plus_sign_is_accepted_as_rust_parses_it() {
    // `u32::from_str` takes one optional leading '+', and the sign is
    // judged after comma-stripping.
    assert_eq!(parse_number_with_commas("+1"), Ok(1));
    assert_eq!(parse_number_with_commas("+1,234"), Ok(1234));
    assert_eq!(parse_number_with_commas(",+1"), Ok(1));
    assert!(matches!(
        parse_number_with_commas("1+2"),
        Err(Ao3ApiError::GenericError(_))
    ));
    assert!(matches!(
        parse_number_with_commas("++1"),
        Err(Ao3ApiError::GenericError(_))
    ));
    assert!(matches!(
        parse_number_with_commas("+"),
        Err(Ao3ApiError::GenericError(_))
    ));
}

#[test]
fn malformed_counts_are_rejected() {
    assert!(matches!(
        parse_number_with_commas(""),
        Err(Ao3ApiError::GenericError(_))
    ));
    assert!(matches!(
        parse_number_with_commas("12k"),
        Err(Ao3ApiError::GenericError(_))
    ));
    assert!(matches!(
        parse_number_with_commas(",,,"),
        Err(Ao3ApiError::GenericError(_))
    ));
    assert!(matches!(
        parse_number_with_commas("-1"),
        Err(Ao3ApiError::GenericError(_))
    ));
    assert!(matches!(
        parse_number_with_commas("4294967296"),
        Err(Ao3ApiError::GenericError(_))
    ));
}

#[test]
fn plain_decimal_parsing_is_exact() {
    assert_eq!(parse_u64("0"), Some(0));
    assert_eq!(parse_u64("18446744073709551615"), Some(u64::MAX));
    assert_eq!(parse_u64("18446744073709551616"), None);
    assert_eq!(parse_u64(""), None);
    assert_eq!(parse_u64("+5"), Some(5));
    assert_eq!(parse_u64("+"), None);
    assert_eq!(parse_u64("++5"), None);
    assert_eq!(parse_u64("-5"), None);
    assert_eq!(u64_to_string(90210), "90210");
    assert_eq!(u64_to_string(0), "0");
}

#[test]
fn transport_is_configured_for_manual_redirects_and_sessions() {
    let c = TransportConfig::configure("test agent");
    assert_eq!(c.user_agent, "test agent");
    assert!(c.cookie_store);
    assert!(!c.auto_redirect);
    assert_eq!(c.timeout_secs, TRANSPORT_TIMEOUT_SECS);
    assert_eq!(c.timeout_secs, 960);
}
