use url_shortener::database::{connect_url, database_file_path, insert_failure};
use url_shortener::expiry::{calculate_expiry, is_expired_at, Timestamp, MAX_UTC_SECS};
use url_shortener::rate_limit::{rate_limit_exceeded, RateLimiter, NANOS_PER_SEC};
use url_shortener::services::expiry_fits;
use url_shortener::shortcode::{generate_short_code, short_code_alphabet};
use url_shortener::validation::{validate_custom_code, validate_url};
use url_shortener::AppError;

fn at(secs: i64, nanos: u32) -> Timestamp {
    Timestamp { secs, nanos }
}

#[test]
fn url_is_normalized() {
    assert_eq!(validate_url("HTTP://Example.COM").unwrap(), "http://example.com/");
    assert_eq!(validate_url("https://www.rust-lang.org").unwrap(), "https://www.rust-lang.org/");
}

#[test]
fn url_errors_carry_their_messages() {
    match validate_url("not-a-url") {
        Err(AppError::InvalidUrl(m)) => assert_eq!(m, "'not-a-url' is not a valid URL"),
        other => panic!("unexpected {:?}", other),
    }
    match validate_url("ftp://files.com") {
        Err(AppError::InvalidUrl(m)) => assert_eq!(m, "Unsupported scheme 'ftp'. Use http or https"),
        other => panic!("unexpected {:?}", other),
    }
}

#[test]
fn custom_code_messages() {
    match validate_custom_code("ab") {
        Err(AppError::InvalidUrl(m)) => {
            assert_eq!(m, "Custom code must be between 3 and 20 characters")
        }
        other => panic!("unexpected {:?}", other),
    }
    match validate_custom_code("ab@cd") {
        Err(AppError::InvalidUrl(m)) => assert_eq!(
            m,
            "Custom code can only contain letters, numbers, hyphens, and underscores"
        ),
        other => panic!("unexpected {:?}", other),
    }
}

#[test]
fn custom_code_length_counts_bytes() {
    // Two characters but six bytes: long enough.
    assert!(validate_custom_code("日本").is_ok());
    assert!(validate_custom_code("café").is_ok());
    // Twenty bytes pass, twenty-one do not.
    assert!(validate_custom_code("a".repeat(20).as_str()).is_ok());
    assert!(validate_custom_code("ééééééééééa").is_err());
    assert!(validate_custom_code("abc").is_ok());
}

#[test]
fn generated_codes_use_the_alphabet() {
    let alphabet = short_code_alphabet();
    for _ in 0..50 {
        let code = generate_short_code();
        assert_eq!(code.chars().count(), 6);
        assert!(code.chars().all(|c| alphabet.contains(&c)));
        assert!(!code.contains('l') && !code.contains('I') && !code.contains('O'));
        assert!(validate_custom_code(&code).is_ok());
    }
}

#[test]
fn expiry_text_is_the_second_it_falls_on() {
    assert_eq!(calculate_expiry(at(0, 0), 3600), "1970-01-01 01:00:00");
    assert_eq!(calculate_expiry(at(1_736_937_000, 999_999_999), 3600), "2025-01-15 11:30:00");
    // A lifetime read as a negative number of seconds lies in the past.
    assert_eq!(calculate_expiry(at(0, 0), u64::MAX), "1969-12-31 23:59:59");
}

#[test]
fn expiry_range_ends_where_the_calendar_ends() {
    assert!(expiry_fits(at(0, 0), MAX_UTC_SECS as u64));
    assert!(!expiry_fits(at(1, 0), MAX_UTC_SECS as u64));
    assert_eq!(calculate_expiry(at(0, 0), MAX_UTC_SECS as u64), "+262142-12-31 23:59:59");
    assert!(!expiry_fits(at(0, 0), 9_223_372_036_854_776));
    let earliest = -8_334_601_228_800i64;
    assert!(expiry_fits(at(0, 0), earliest as u64));
    assert!(!expiry_fits(at(-1, 0), earliest as u64));
    assert_eq!(calculate_expiry(at(0, 0), earliest as u64), "-262143-01-01 00:00:00");
    assert!(!expiry_fits(at(0, 0), (earliest - 1) as u64));
}

#[test]
fn stored_text_parses_back_across_the_years() {
    for secs in [0i64, 951_782_400, 1_700_000_000, 4_102_444_799, 253_402_300_799] {
        let text = calculate_expiry(at(0, 0), secs as u64);
        let expiry = Some(text);
        assert!(!is_expired_at(&expiry, at(secs, 0)));
        assert!(is_expired_at(&expiry, at(secs, 1)));
        if secs > 0 {
            assert!(!is_expired_at(&expiry, at(secs - 1, 999_999_999)));
        }
    }
}

#[test]
fn stored_expiry_reads_back_as_its_second() {
    let now = at(1_736_937_000, 0);
    let text = calculate_expiry(now, 60);
    let expiry = Some(text);
    assert!(!is_expired_at(&expiry, at(1_736_937_060, 0)));
    assert!(is_expired_at(&expiry, at(1_736_937_060, 1)));
    assert!(is_expired_at(&expiry, at(1_736_937_061, 0)));
    assert!(!is_expired_at(&expiry, at(1_736_937_059, 999_999_999)));
}

#[test]
fn unreadable_or_missing_expiry_never_expires() {
    assert!(!is_expired_at(&None, at(i64::MAX, 0)));
    assert!(!is_expired_at(&Some("tomorrow".to_string()), at(i64::MAX, 0)));
}

#[test]
fn error_texts() {
    assert_eq!(AppError::InvalidUrl("x".to_string()).to_string(), "Invalid URL: x");
    assert_eq!(AppError::CodeNotFound("c".to_string()).to_string(), "Code not found: c");
    assert_eq!(AppError::CodeAlreadyExists("c".to_string()).to_string(), "Code already exists: c");
    assert_eq!(AppError::UrlExpired("c".to_string()).to_string(), "URL expired: c");
    assert_eq!(AppError::DatabaseError("m".to_string()).to_string(), "Database error: m");
    assert_eq!(AppError::InternalError("m".to_string()).to_string(), "Internal error: m");
}

#[test]
fn error_answers() {
    let r = AppError::CodeNotFound("abc".to_string()).to_response();
    assert_eq!(r.status, 404);
    assert_eq!(r.body.error.code, "CODE_NOT_FOUND");
    assert_eq!(r.body.error.message, "Short code 'abc' not found");
    let r = AppError::CodeAlreadyExists("abc".to_string()).to_response();
    assert_eq!((r.status, r.body.error.code.as_str()), (409, "CODE_EXISTS"));
    assert_eq!(r.body.error.message, "Custom code 'abc' already exists");
    let r = AppError::UrlExpired("abc".to_string()).to_response();
    assert_eq!((r.status, r.body.error.code.as_str()), (410, "URL_EXPIRED"));
    assert_eq!(r.body.error.message, "Short URL 'abc' has expired");
    let r = AppError::InvalidUrl("bad".to_string()).to_response();
    assert_eq!((r.status, r.body.error.code.as_str(), r.body.error.message.as_str()), (400, "INVALID_URL", "bad"));
    let r = AppError::DatabaseError("secret detail".to_string()).to_response();
    assert_eq!((r.status, r.body.error.code.as_str()), (500, "DATABASE_ERROR"));
    assert_eq!(r.body.error.message, "Internal database error");
    let r = AppError::InternalError("secret detail".to_string()).to_response();
    assert_eq!((r.status, r.body.error.code.as_str()), (500, "INTERNAL_ERROR"));
    assert_eq!(r.body.error.message, "An internal error occurred");
}

#[test]
fn database_file_of_a_url() {
    assert_eq!(database_file_path("sqlite://data/urls.db"), Some("data/urls.db".to_string()));
    assert_eq!(database_file_path("sqlite://:memory:"), None);
    assert_eq!(database_file_path("sqlite::memory:"), None);
    assert_eq!(database_file_path("postgres://host/db"), None);
}

#[test]
fn connection_url_asks_for_creation() {
    assert_eq!(connect_url("sqlite://data/urls.db"), "sqlite://data/urls.db?mode=rwc");
    assert_eq!(connect_url("sqlite::memory:"), "sqlite::memory:?mode=rwc");
    assert_eq!(connect_url("sqlite://a.db?cache=shared"), "sqlite://a.db?cache=shared&create=true");
}

#[test]
fn failed_insert_is_classified() {
    match insert_failure(
        "mycode",
        Some("UNIQUE constraint failed: urls.short_code"),
        "error returned from database: UNIQUE constraint failed: urls.short_code",
    ) {
        AppError::CodeAlreadyExists(c) => assert_eq!(c, "mycode"),
        other => panic!("unexpected {:?}", other),
    }
    match insert_failure("mycode", Some("database is locked"), "database is locked") {
        AppError::DatabaseError(m) => assert_eq!(m, "database is locked"),
        other => panic!("unexpected {:?}", other),
    }
    match insert_failure("mycode", None, "pool timed out") {
        AppError::DatabaseError(m) => assert_eq!(m, "pool timed out"),
        other => panic!("unexpected {:?}", other),
    }
}

#[test]
fn rate_limit_window_admits_max_requests() {
    let mut limiter = RateLimiter::new(3, 60);
    let t0: u128 = 1_000;
    assert_eq!(limiter.check("10.0.0.1", t0), Ok(2));
    assert_eq!(limiter.check("10.0.0.1", t0 + 1), Ok(1));
    assert_eq!(limiter.check("10.0.0.1", t0 + 2), Ok(0));
    assert_eq!(limiter.check("10.0.0.1", t0 + 3), Err(()));
    assert_eq!(limiter.check("10.0.0.1", t0 + 60 * NANOS_PER_SEC), Err(()));
    // Clients are counted apart.
    assert_eq!(limiter.check("10.0.0.2", t0 + 4), Ok(2));
    // A new window opens once the old one has run out.
    assert_eq!(limiter.check("10.0.0.1", t0 + 60 * NANOS_PER_SEC + 1), Ok(2));
}

#[test]
fn rate_limit_cleanup_forgets_only_expired_clients() {
    let mut limiter = RateLimiter::new(2, 1);
    assert_eq!(limiter.check("a", 0), Ok(1));
    assert_eq!(limiter.check("b", NANOS_PER_SEC), Ok(1));
    limiter.retain_live(NANOS_PER_SEC + 1);
    // "b" is still counted; "a" starts afresh either way.
    assert_eq!(limiter.check("b", NANOS_PER_SEC + 2), Ok(0));
    assert_eq!(limiter.check("a", NANOS_PER_SEC + 3), Ok(1));
}

#[test]
fn rate_limit_refusal_answer() {
    let r = rate_limit_exceeded();
    assert_eq!(r.status, 429);
    assert_eq!(r.body.error.code, "RATE_LIMIT_EXCEEDED");
    assert_eq!(r.body.error.message, "Too many requests. Please try again later.");
}
