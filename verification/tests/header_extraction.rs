//! Pulling the session token out of a header list.

use auth_tokens::headers::{extract_token, find_header_value};

fn headers(pairs: &[(&str, &str)]) -> Vec<(String, String)> {
    pairs.iter().map(|(k, v)| (k.to_string(), v.to_string())).collect()
}

#[test]
fn token_header_is_found_case_insensitively() {
    let hs = headers(&[("Content-Type", "text/plain"), ("ToKeN", "abc123")]);
    assert_eq!(extract_token(&hs), Some("abc123".to_string()));
}

#[test]
fn token_value_is_trimmed() {
    let hs = headers(&[("token", "  abc123\t ")]);
    // A trim that handed its input back unchanged would keep the padding.
    assert_eq!(extract_token(&hs), Some("abc123".to_string()));
}

#[test]
fn blank_token_counts_as_absent() {
    let hs = headers(&[("token", "   ")]);
    assert_eq!(extract_token(&hs), None);
    let hs = headers(&[("token", "")]);
    assert_eq!(extract_token(&hs), None);
}

#[test]
fn missing_token_header_is_absent() {
    let hs = headers(&[("Content-Type", "application/json")]);
    assert_eq!(extract_token(&hs), None);
    assert_eq!(extract_token(&headers(&[])), None);
}

#[test]
fn first_matching_header_wins() {
    let hs = headers(&[("token", "first"), ("TOKEN", "second")]);
    assert_eq!(extract_token(&hs), Some("first".to_string()));
}

#[test]
fn header_lookup_matches_ascii_case_only() {
    let hs = headers(&[("x-forwarded-for", "10.0.0.1")]);
    assert_eq!(find_header_value(&hs, "X-Forwarded-For"), Some("10.0.0.1".to_string()));
    assert_eq!(find_header_value(&hs, "x-real-ip"), None);
}
