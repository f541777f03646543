use vstd::prelude::*;

verus! {

/// A row of the URL table.
#[derive(Debug)]
pub struct UrlRecord {
    pub id: i64,
    pub short_code: String,
    pub original_url: String,
    pub click_count: i64,
    pub created_at: String,
    pub expires_at: Option<String>,
}

/// A request to shorten a URL, optionally under a chosen code and with a
/// lifetime in seconds.
#[derive(Debug)]
pub struct ShortenRequest {
    pub url: String,
    pub custom_code: Option<String>,
    pub expires_in: Option<u64>,
}

/// The answer to a successful shorten request.
#[derive(Debug)]
pub struct ShortenResponse {
    pub short_code: String,
    pub short_url: String,
    pub original_url: String,
    pub created_at: String,
    pub expires_at: Option<String>,
}

/// Statistics of one short URL.
#[derive(Debug)]
pub struct UrlStats {
    pub short_code: String,
    pub original_url: String,
    pub click_count: i64,
    pub created_at: String,
    pub expires_at: Option<String>,
}

/// The answer of the health check.
#[derive(Debug)]
pub struct HealthResponse {
    pub status: String,
    pub version: String,
}

/// The body of every error answer.
#[derive(Debug)]
pub struct ErrorBody {
    pub error: ErrorDetail,
}

/// A machine-readable error code and a message for people.
#[derive(Debug)]
pub struct ErrorDetail {
    pub code: String,
    pub message: String,
}

pub struct UrlRecordView {
    pub id: int,
    pub short_code: Seq<char>,
    pub original_url: Seq<char>,
    pub click_count: int,
    pub created_at: Seq<char>,
    pub expires_at: Option<Seq<char>>,
}

pub struct ShortenRequestView {
    pub url: Seq<char>,
    pub custom_code: Option<Seq<char>>,
    pub expires_in: Option<u64>,
}

pub struct ShortenResponseView {
    pub short_code: Seq<char>,
    pub short_url: Seq<char>,
    pub original_url: Seq<char>,
    pub created_at: Seq<char>,
    pub expires_at: Option<Seq<char>>,
}

pub struct UrlStatsView {
    pub short_code: Seq<char>,
    pub original_url: Seq<char>,
    pub click_count: int,
    pub created_at: Seq<char>,
    pub expires_at: Option<Seq<char>>,
}

pub struct ErrorBodyView {
    pub code: Seq<char>,
    pub message: Seq<char>,
}

/// The view of an optional string.
pub open spec fn opt_view(o: Option<String>) -> Option<Seq<char>> {
    match o {
        Some(s) => Some(s@),
        None => None,
    }
}

impl View for UrlRecord {
    type V = UrlRecordView;

    open spec fn view(&self) -> UrlRecordView {
        UrlRecordView {
            id: self.id as int,
            short_code: self.short_code@,
            original_url: self.original_url@,
            click_count: self.click_count as int,
            created_at: self.created_at@,
            expires_at: opt_view(self.expires_at),
        }
    }
}

impl View for ShortenRequest {
    type V = ShortenRequestView;

    open spec fn view(&self) -> ShortenRequestView {
        ShortenRequestView {
            url: self.url@,
            custom_code: opt_view(self.custom_code),
            expires_in: self.expires_in,
        }
    }
}

impl View for ShortenResponse {
    type V = ShortenResponseView;

    open spec fn view(&self) -> ShortenResponseView {
        ShortenResponseView {
            short_code: self.short_code@,
            short_url: self.short_url@,
            original_url: self.original_url@,
            created_at: self.created_at@,
            expires_at: opt_view(self.expires_at),
        }
    }
}

impl View for UrlStats {
    type V = UrlStatsView;

    open spec fn view(&self) -> UrlStatsView {
        UrlStatsView {
            short_code: self.short_code@,
            original_url: self.original_url@,
            click_count: self.click_count as int,
            created_at: self.created_at@,
            expires_at: opt_view(self.expires_at),
        }
    }
}

impl View for ErrorBody {
    type V = ErrorBodyView;

    open spec fn view(&self) -> ErrorBodyView {
        ErrorBodyView { code: self.error.code@, message: self.error.message@ }
    }
}

/// The public address of a short code: the base URL, a slash, the code.
pub open spec fn short_url_of(base_url: Seq<char>, code: Seq<char>) -> Seq<char> {
    base_url + "/"@ + code
}

/// The answer built from a stored record.
pub open spec fn response_of(record: UrlRecordView, base_url: Seq<char>) -> ShortenResponseView {
    ShortenResponseView {
        short_code: record.short_code,
        short_url: short_url_of(base_url, record.short_code),
        original_url: record.original_url,
        created_at: record.created_at,
        expires_at: record.expires_at,
    }
}

/// The statistics built from a stored record.
pub open spec fn stats_of(record: UrlRecordView) -> UrlStatsView {
    UrlStatsView {
        short_code: record.short_code,
        original_url: record.original_url,
        click_count: record.click_count,
        created_at: record.created_at,
        expires_at: record.expires_at,
    }
}

/// The answer to a shortening reports the stored row as it is: its code,
/// its public address (the base URL, a slash and the code), its original
/// URL, its creation stamp and its expiry, each unchanged.
pub proof fn lemma_response_reports_the_row(record: UrlRecordView, base_url: Seq<char>)
    ensures
        response_of(record, base_url).short_code == record.short_code,
        response_of(record, base_url).short_url == base_url + "/"@ + record.short_code,
        response_of(record, base_url).original_url == record.original_url,
        response_of(record, base_url).created_at == record.created_at,
        response_of(record, base_url).expires_at == record.expires_at,
{
}

/// The statistics of a row report the row as it is: its code, original URL,
/// click count, creation stamp and expiry, each unchanged.
pub proof fn lemma_stats_report_the_row(record: UrlRecordView)
    ensures
        stats_of(record).short_code == record.short_code,
        stats_of(record).original_url == record.original_url,
        stats_of(record).click_count == record.click_count,
        stats_of(record).created_at == record.created_at,
        stats_of(record).expires_at == record.expires_at,
{
}

fn clone_opt_text(o: &Option<String>) -> (r: Option<String>)
    ensures
        opt_view(r) == opt_view(*o),
{
    match o {
        Some(s) => Some(s.clone()),
        None => None,
    }
}

/// Builds the answer for a stored record, with its public address under
/// `base_url`.
pub fn shorten_response(record: &UrlRecord, base_url: &str) -> (r: ShortenResponse)
    ensures
        r@ == response_of(record@, base_url@),
        r@.short_code == record@.short_code,
        r@.short_url == base_url@ + "/"@ + record@.short_code,
        r@.original_url == record@.original_url,
        r@.created_at == record@.created_at,
        r@.expires_at == record@.expires_at,
{
    let mut short_url = String::from_str(base_url);
    short_url.append("/");
    short_url.append(record.short_code.as_str());
    ShortenResponse {
        short_code: record.short_code.clone(),
        short_url,
        original_url: record.original_url.clone(),
        created_at: record.created_at.clone(),
        expires_at: clone_opt_text(&record.expires_at),
    }
}

/// Builds the statistics of a stored record.
pub fn url_stats(record: &UrlRecord) -> (r: UrlStats)
    ensures
        r@ == stats_of(record@),
        r@.short_code == record@.short_code,
        r@.original_url == record@.original_url,
        r@.click_count == record@.click_count,
        r@.created_at == record@.created_at,
        r@.expires_at == record@.expires_at,
{
    UrlStats {
        short_code: record.short_code.clone(),
        original_url: record.original_url.clone(),
        click_count: record.click_count,
        created_at: record.created_at.clone(),
        expires_at: clone_opt_text(&record.expires_at),
    }
}

} // verus!
