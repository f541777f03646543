use chrono::{Duration, Utc};
use url_shortener::expiry::is_expired;
use url_shortener::shortcode::{generate_short_code, SHORT_CODE_LENGTH};
use url_shortener::validation::{validate_custom_code, validate_url};

#[test]
fn test_validate_valid_urls() {
    assert!(validate_url("https://www.google.com").is_ok());
    assert!(validate_url("http://example.com/path?q=1").is_ok());
    assert!(validate_url("https://sub.domain.com/a/b/c").is_ok());
}

#[test]
fn test_validate_invalid_urls() {
    assert!(validate_url("not-a-url").is_err());
    assert!(validate_url("ftp://files.com").is_err());
    assert!(validate_url("").is_err());
    assert!(validate_url("javascript:alert(1)").is_err());
}

#[test]
fn test_validate_custom_code() {
    assert!(validate_custom_code("my-url").is_ok());
    assert!(validate_custom_code("abc123").is_ok());
    assert!(validate_custom_code("a_b").is_ok());

    assert!(validate_custom_code("ab").is_err()); // too short
    assert!(validate_custom_code("a".repeat(21).as_str()).is_err()); // too long
    assert!(validate_custom_code("ab cd").is_err()); // space
    assert!(validate_custom_code("ab@cd").is_err()); // special char
}

#[test]
fn test_generate_short_code_length() {
    let code = generate_short_code();
    assert_eq!(code.len(), SHORT_CODE_LENGTH);
}

#[test]
fn test_generate_short_code_uniqueness() {
    let codes: Vec<String> = (0..100).map(|_| generate_short_code()).collect();
    let unique: std::collections::HashSet<_> = codes.iter().collect();
    assert_eq!(codes.len(), unique.len());
}

#[test]
fn test_is_expired() {
    let future = (Utc::now() + Duration::hours(1))
        .format("%Y-%m-%d %H:%M:%S")
        .to_string();
    assert!(!is_expired(&Some(future)));

    let past = (Utc::now() - Duration::hours(1))
        .format("%Y-%m-%d %H:%M:%S")
        .to_string();
    assert!(is_expired(&Some(past)));

    assert!(!is_expired(&None));
}
