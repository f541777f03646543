use url_shortener::expiry::Timestamp;
use url_shortener::services::{
    delete_short_url, get_stats, resolve_url, shorten_url, DbAction, DbReply, FlowStep,
};
use url_shortener::{AppError, ShortenRequest, ShortenResponse, UrlRecord, UrlStats};

const BASE_URL: &str = "http://localhost:3000";

fn copy_record(r: &UrlRecord) -> UrlRecord {
    UrlRecord {
        id: r.id,
        short_code: r.short_code.clone(),
        original_url: r.original_url.clone(),
        click_count: r.click_count,
        created_at: r.created_at.clone(),
        expires_at: r.expires_at.clone(),
    }
}

/// An in-memory table that answers the queries as the URL table does.
struct Table {
    rows: Vec<UrlRecord>,
    next_id: i64,
}

impl Table {
    fn new() -> Table {
        Table { rows: Vec::new(), next_id: 1 }
    }

    fn answer(&mut self, action: DbAction) -> DbReply {
        match action {
            DbAction::FindByOriginal(url) => {
                DbReply::Found(self.rows.iter().find(|r| r.original_url == url).map(copy_record))
            }
            DbAction::FindByCode(code) => {
                DbReply::Found(self.rows.iter().find(|r| r.short_code == code).map(copy_record))
            }
            DbAction::Insert { short_code, original_url, expires_at } => {
                if self.rows.iter().any(|r| r.short_code == short_code) {
                    return DbReply::Failed(AppError::CodeAlreadyExists(short_code));
                }
                let row = UrlRecord {
                    id: self.next_id,
                    short_code,
                    original_url,
                    click_count: 0,
                    created_at: "2025-01-15 10:30:00".to_string(),
                    expires_at,
                };
                self.next_id += 1;
                let reply = copy_record(&row);
                self.rows.push(row);
                DbReply::Inserted(reply)
            }
            DbAction::IncrementClicks(code) => {
                for r in self.rows.iter_mut() {
                    if r.short_code == code {
                        r.click_count += 1;
                    }
                }
                DbReply::Incremented
            }
            DbAction::Delete(code) => {
                let before = self.rows.len();
                self.rows.retain(|r| r.short_code != code);
                DbReply::Deleted(self.rows.len() < before)
            }
        }
    }
}

fn now() -> Timestamp {
    let n = chrono::Utc::now();
    Timestamp { secs: n.timestamp(), nanos: n.timestamp_subsec_nanos() }
}

fn request(url: &str, custom_code: Option<&str>, expires_in: Option<u64>) -> ShortenRequest {
    ShortenRequest {
        url: url.to_string(),
        custom_code: custom_code.map(|c| c.to_string()),
        expires_in,
    }
}

fn shorten(table: &mut Table, req: ShortenRequest) -> Result<ShortenResponse, AppError> {
    let t = now();
    let (mut flow, mut step) = shorten_url(req, BASE_URL, t);
    loop {
        match step {
            FlowStep::Run(action) => {
                let reply = table.answer(action);
                assert!(flow.expects(&reply));
                step = flow.resume(reply, t);
            }
            FlowStep::Finished(r) => return r,
            FlowStep::ExpiryOutOfRange => panic!("expiry out of range"),
        }
    }
}

fn redirect(table: &mut Table, code: &str) -> Result<String, AppError> {
    let (mut flow, mut step) = resolve_url(code);
    loop {
        match step {
            FlowStep::Run(action) => {
                let reply = table.answer(action);
                assert!(flow.expects(&reply));
                step = flow.resume(reply, now());
            }
            FlowStep::Finished(r) => return r,
            FlowStep::ExpiryOutOfRange => panic!("expiry out of range"),
        }
    }
}

fn stats(table: &mut Table, code: &str) -> Result<UrlStats, AppError> {
    let (mut flow, step) = get_stats(code);
    match step {
        FlowStep::Run(action) => {
            let reply = table.answer(action);
            assert!(flow.expects_lookup(&reply));
            match flow.finish_stats(reply) {
                FlowStep::Finished(r) => r,
                _ => panic!("statistics answer expected"),
            }
        }
        _ => panic!("lookup expected"),
    }
}

fn delete(table: &mut Table, code: &str) -> Result<(), AppError> {
    let (mut flow, step) = delete_short_url(code);
    match step {
        FlowStep::Run(action) => {
            let reply = table.answer(action);
            assert!(flow.expects_deletion(&reply));
            match flow.finish_delete(reply) {
                FlowStep::Finished(r) => r,
                _ => panic!("deletion answer expected"),
            }
        }
        _ => panic!("delete expected"),
    }
}

fn error_code(e: &AppError) -> String {
    e.to_response().body.error.code
}

#[test]
fn test_shorten_valid_url() {
    let mut table = Table::new();
    let body = shorten(&mut table, request("https://www.rust-lang.org", None, None)).unwrap();
    assert!(!body.short_code.is_empty());
    assert!(body.short_url.starts_with("http://localhost:3000/"));
    assert_eq!(body.original_url, "https://www.rust-lang.org/");
    assert!(!body.created_at.is_empty());
}

#[test]
fn test_shorten_with_custom_code() {
    let mut table = Table::new();
    let body =
        shorten(&mut table, request("https://www.rust-lang.org", Some("rustlang"), None)).unwrap();
    assert_eq!(body.short_code, "rustlang");
    assert_eq!(body.short_url, "http://localhost:3000/rustlang");
}

#[test]
fn test_shorten_with_expiration() {
    let mut table = Table::new();
    let body = shorten(&mut table, request("https://example.com", None, Some(3600))).unwrap();
    assert!(body.expires_at.is_some());
}

#[test]
fn test_shorten_invalid_url() {
    let mut table = Table::new();
    let err = shorten(&mut table, request("not-a-valid-url", None, None)).unwrap_err();
    assert_eq!(err.to_response().status, 400);
    assert_eq!(error_code(&err), "INVALID_URL");
}

#[test]
fn test_shorten_ftp_url_rejected() {
    let mut table = Table::new();
    let err = shorten(&mut table, request("ftp://files.example.com", None, None)).unwrap_err();
    assert_eq!(err.to_response().status, 400);
    assert_eq!(error_code(&err), "INVALID_URL");
}

#[test]
fn test_shorten_duplicate_returns_existing() {
    let mut table = Table::new();
    let body1 = shorten(&mut table, request("https://duplicate-test.com", None, None)).unwrap();
    let body2 = shorten(&mut table, request("https://duplicate-test.com", None, None)).unwrap();
    assert_eq!(body1.short_code, body2.short_code);
    assert_eq!(table.rows.len(), 1);
}

#[test]
fn test_shorten_custom_code_too_short() {
    let mut table = Table::new();
    let err = shorten(&mut table, request("https://example.com", Some("ab"), None)).unwrap_err();
    assert_eq!(err.to_response().status, 400);
}

#[test]
fn test_shorten_duplicate_custom_code() {
    let mut table = Table::new();
    assert!(shorten(&mut table, request("https://example1.com", Some("mycode"), None)).is_ok());
    let err = shorten(&mut table, request("https://example2.com", Some("mycode"), None)).unwrap_err();
    assert_eq!(err.to_response().status, 409);
    assert_eq!(error_code(&err), "CODE_EXISTS");
}

#[test]
fn test_redirect_valid_code() {
    let mut table = Table::new();
    assert!(shorten(&mut table, request("https://www.google.com", Some("goog"), None)).is_ok());
    let location = redirect(&mut table, "goog").unwrap();
    assert_eq!(location, "https://www.google.com/");
}

#[test]
fn test_redirect_invalid_code() {
    let mut table = Table::new();
    let err = redirect(&mut table, "nonexistent").unwrap_err();
    assert_eq!(err.to_response().status, 404);
    assert_eq!(error_code(&err), "CODE_NOT_FOUND");
}

#[test]
fn test_stats_valid_code() {
    let mut table = Table::new();
    assert!(shorten(&mut table, request("https://stats-test.com", Some("stats-test"), None)).is_ok());
    assert!(redirect(&mut table, "stats-test").is_ok());
    let body = stats(&mut table, "stats-test").unwrap();
    assert_eq!(body.short_code, "stats-test");
    assert_eq!(body.original_url, "https://stats-test.com/");
    assert_eq!(body.click_count, 1);
}

#[test]
fn test_stats_not_found() {
    let mut table = Table::new();
    let err = stats(&mut table, "doesnotexist").unwrap_err();
    assert_eq!(err.to_response().status, 404);
}

#[test]
fn test_delete_existing_url() {
    let mut table = Table::new();
    assert!(shorten(&mut table, request("https://delete-me.com", Some("del-test"), None)).is_ok());
    assert!(delete(&mut table, "del-test").is_ok());
    let err = stats(&mut table, "del-test").unwrap_err();
    assert_eq!(err.to_response().status, 404);
}

#[test]
fn test_delete_nonexistent_url() {
    let mut table = Table::new();
    let err = delete(&mut table, "ghost").unwrap_err();
    assert_eq!(err.to_response().status, 404);
}

#[test]
fn test_click_count_increments() {
    let mut table = Table::new();
    assert!(shorten(&mut table, request("https://click-test.com", Some("clicks"), None)).is_ok());
    for _ in 0..3 {
        let _ = redirect(&mut table, "clicks");
    }
    let body = stats(&mut table, "clicks").unwrap();
    assert_eq!(body.click_count, 3);
}

#[test]
fn expired_code_is_refused_and_not_counted() {
    let mut table = Table::new();
    table.rows.push(UrlRecord {
        id: 1,
        short_code: "old".to_string(),
        original_url: "https://old.example/".to_string(),
        click_count: 0,
        created_at: "2000-01-01 00:00:00".to_string(),
        expires_at: Some("2000-01-02 00:00:00".to_string()),
    });
    let err = redirect(&mut table, "old").unwrap_err();
    assert!(matches!(err, AppError::UrlExpired(ref c) if c == "old"));
    assert_eq!(err.to_response().status, 410);
    assert_eq!(table.rows[0].click_count, 0);
}

#[test]
fn expired_record_is_not_reused() {
    let mut table = Table::new();
    table.rows.push(UrlRecord {
        id: 1,
        short_code: "old".to_string(),
        original_url: "https://again.example/".to_string(),
        click_count: 0,
        created_at: "2000-01-01 00:00:00".to_string(),
        expires_at: Some("2000-01-02 00:00:00".to_string()),
    });
    table.next_id = 2;
    let body = shorten(&mut table, request("https://again.example", None, None)).unwrap();
    assert_ne!(body.short_code, "old");
    assert_eq!(table.rows.len(), 2);
}

#[test]
fn endless_collisions_give_up_after_eleven_lookups() {
    let t = now();
    let (mut flow, mut step) = shorten_url(request("https://busy.example", None, None), BASE_URL, t);
    let mut lookups = 0;
    let taken = UrlRecord {
        id: 1,
        short_code: "taken".to_string(),
        original_url: "https://other.example/".to_string(),
        click_count: 0,
        created_at: "2025-01-15 10:30:00".to_string(),
        expires_at: None,
    };
    let result = loop {
        match step {
            FlowStep::Run(DbAction::FindByOriginal(_)) => {
                step = flow.resume(DbReply::Found(None), t);
            }
            FlowStep::Run(DbAction::FindByCode(code)) => {
                assert_eq!(code.chars().count(), 6);
                lookups += 1;
                step = flow.resume(DbReply::Found(Some(copy_record(&taken))), t);
            }
            FlowStep::Run(other) => panic!("unexpected query {:?}", other),
            FlowStep::Finished(r) => break r,
            FlowStep::ExpiryOutOfRange => panic!("expiry out of range"),
        }
    };
    assert_eq!(lookups, 11);
    match result {
        Err(AppError::InternalError(m)) => assert_eq!(m, "Failed to generate unique code"),
        other => panic!("unexpected answer {:?}", other),
    }
}

#[test]
fn database_failure_is_passed_on() {
    let (mut flow, _) = resolve_url("abc");
    let step = flow.resume(DbReply::Failed(AppError::DatabaseError("disk I/O error".to_string())), now());
    match step {
        FlowStep::Finished(Err(AppError::DatabaseError(m))) => assert_eq!(m, "disk I/O error"),
        other => panic!("unexpected step {:?}", other),
    }
}

#[test]
fn lifetime_beyond_the_calendar_is_flagged() {
    let t = Timestamp { secs: 1_700_000_000, nanos: 0 };
    let (_, step) = shorten_url(
        request("https://example.com", Some("far-away"), Some(9_000_000_000_000)),
        BASE_URL,
        t,
    );
    assert!(matches!(step, FlowStep::ExpiryOutOfRange));
}

#[test]
fn custom_code_with_expiry_is_inserted_with_its_text() {
    let t = Timestamp { secs: 0, nanos: 5 };
    let (_, step) = shorten_url(request("https://example.com", Some("soon"), Some(90)), BASE_URL, t);
    match step {
        FlowStep::Run(DbAction::Insert { short_code, original_url, expires_at }) => {
            assert_eq!(short_code, "soon");
            assert_eq!(original_url, "https://example.com/");
            assert_eq!(expires_at.as_deref(), Some("1970-01-01 00:01:30"));
        }
        other => panic!("unexpected step {:?}", other),
    }
}

#[test]
fn invalid_requests_make_no_query() {
    let (_, step) = shorten_url(request("https://example.com", Some("ab cd"), None), BASE_URL, now());
    match step {
        FlowStep::Finished(Err(AppError::InvalidUrl(m))) => assert_eq!(
            m,
            "Custom code can only contain letters, numbers, hyphens, and underscores"
        ),
        other => panic!("unexpected step {:?}", other),
    }
    let (_, step) = shorten_url(request("javascript:alert(1)", None, None), BASE_URL, now());
    match step {
        FlowStep::Finished(Err(AppError::InvalidUrl(m))) => {
            assert_eq!(m, "Unsupported scheme 'javascript'. Use http or https")
        }
        other => panic!("unexpected step {:?}", other),
    }
}

#[test]
fn shortening_asks_for_the_existing_record_first() {
    let (_, step) = shorten_url(request("https://Example.com/a", None, None), BASE_URL, now());
    match step {
        FlowStep::Run(DbAction::FindByOriginal(url)) => assert_eq!(url, "https://example.com/a"),
        other => panic!("unexpected step {:?}", other),
    }
}

#[test]
fn drawn_code_expiry_counts_from_the_reply_that_found_it_free() {
    let mut table = Table::new();
    let begin = Timestamp { secs: 1_700_000_000, nanos: 0 };
    let moments = [
        Timestamp { secs: 1_700_000_005, nanos: 0 },
        Timestamp { secs: 1_700_000_010, nanos: 0 },
        Timestamp { secs: 1_700_000_015, nanos: 0 },
    ];
    let (mut flow, mut step) =
        shorten_url(request("https://example.com/later", None, Some(3600)), BASE_URL, begin);
    let mut replies = 0;
    let response = loop {
        match step {
            FlowStep::Run(action) => {
                if let DbAction::Insert { expires_at, .. } = &action {
                    assert_eq!(expires_at.as_deref(), Some("2023-11-14 23:13:30"));
                }
                let reply = table.answer(action);
                assert!(flow.expects(&reply));
                step = flow.resume(reply, moments[replies]);
                replies += 1;
            }
            FlowStep::Finished(r) => break r.unwrap(),
            FlowStep::ExpiryOutOfRange => panic!("expiry out of range"),
        }
    };
    assert_eq!(replies, 3);
    assert_eq!(response.expires_at.as_deref(), Some("2023-11-14 23:13:30"));
    assert_eq!(table.rows.len(), 1);
}

#[test]
fn replies_of_the_wrong_kind_are_not_expected() {
    let (flow, _) = shorten_url(request("https://example.com", None, None), BASE_URL, now());
    assert!(flow.expects(&DbReply::Found(None)));
    assert!(!flow.expects(&DbReply::Incremented));
    assert!(!flow.expects(&DbReply::Deleted(true)));
    let (flow, _) = resolve_url("abc123");
    assert!(flow.expects(&DbReply::Failed(AppError::DatabaseError("x".to_string()))));
    assert!(!flow.expects(&DbReply::Incremented));
    let (flow, _) = get_stats("abc123");
    assert!(flow.expects_lookup(&DbReply::Found(None)));
    assert!(!flow.expects_deletion(&DbReply::Found(None)));
    let (flow, _) = delete_short_url("abc123");
    assert!(flow.expects_deletion(&DbReply::Deleted(false)));
    assert!(!flow.expects_lookup(&DbReply::Deleted(false)));
}
