//! The request flows of the service. Each flow decides, from what the URL
//! table answered, the next query to run or the final answer; the caller runs
//! the queries against the database and hands back the replies.
use vstd::prelude::*;

use crate::error::{AppError, AppErrorView};
use crate::expiry::{
    calculate_expiry, expired_at, expiry_in_range, expiry_text, is_expired_at, Timestamp,
    MAX_DELTA_SECS, MAX_UTC_SECS, MIN_UTC_SECS,
};
use crate::models::{
    opt_view, response_of, shorten_response, stats_of, url_stats, ShortenRequest,
    ShortenRequestView, ShortenResponse, ShortenResponseView, UrlRecord, UrlRecordView, UrlStats,
    UrlStatsView,
};
use crate::shortcode::{generate_short_code, generated_code};
use crate::draws::random_draw;
use crate::validation::{
    custom_code_error, custom_code_valid, validate_custom_code, validate_url, validated_url,
};

verus! {

/// A query on the URL table.
#[derive(Debug)]
pub enum DbAction {
    /// Look up a record by its original URL.
    FindByOriginal(String),
    /// Look up a record by its short code.
    FindByCode(String),
    /// Insert a new record.
    Insert { short_code: String, original_url: String, expires_at: Option<String> },
    /// Add one to the click count of a short code.
    IncrementClicks(String),
    /// Delete the record of a short code.
    Delete(String),
}

/// What the URL table answered to a query.
#[derive(Debug)]
pub enum DbReply {
    /// The answer to a lookup.
    Found(Option<UrlRecord>),
    /// The record that an insert stored.
    Inserted(UrlRecord),
    /// A click count was incremented.
    Incremented,
    /// Whether a delete removed a record.
    Deleted(bool),
    /// The query failed.
    Failed(AppError),
}

/// What a flow asks for next: a query to run, or its final answer. The
/// variant `ExpiryOutOfRange` marks a requested lifetime that leaves the
/// calendar's range; the service does not answer such a request.
#[derive(Debug)]
pub enum FlowStep<T> {
    Run(DbAction),
    Finished(Result<T, AppError>),
    ExpiryOutOfRange,
}

pub enum DbActionView {
    FindByOriginal(Seq<char>),
    FindByCode(Seq<char>),
    Insert { short_code: Seq<char>, original_url: Seq<char>, expires_at: Option<Seq<char>> },
    IncrementClicks(Seq<char>),
    Delete(Seq<char>),
}

pub enum DbReplyView {
    Found(Option<UrlRecordView>),
    Inserted(UrlRecordView),
    Incremented,
    Deleted(bool),
    Failed(AppErrorView),
}

pub enum FlowStepView<V> {
    Run(DbActionView),
    Finished(Result<V, AppErrorView>),
    ExpiryOutOfRange,
}

impl View for DbAction {
    type V = DbActionView;

    open spec fn view(&self) -> DbActionView {
        match self {
            DbAction::FindByOriginal(u) => DbActionView::FindByOriginal(u@),
            DbAction::FindByCode(c) => DbActionView::FindByCode(c@),
            DbAction::Insert { short_code, original_url, expires_at } => DbActionView::Insert {
                short_code: short_code@,
                original_url: original_url@,
                expires_at: opt_view(*expires_at),
            },
            DbAction::IncrementClicks(c) => DbActionView::IncrementClicks(c@),
            DbAction::Delete(c) => DbActionView::Delete(c@),
        }
    }
}

pub open spec fn record_opt_view(o: Option<UrlRecord>) -> Option<UrlRecordView> {
    match o {
        Some(r) => Some(r@),
        None => None,
    }
}

impl View for DbReply {
    type V = DbReplyView;

    open spec fn view(&self) -> DbReplyView {
        match self {
            DbReply::Found(o) => DbReplyView::Found(record_opt_view(*o)),
            DbReply::Inserted(r) => DbReplyView::Inserted(r@),
            DbReply::Incremented => DbReplyView::Incremented,
            DbReply::Deleted(b) => DbReplyView::Deleted(*b),
            DbReply::Failed(e) => DbReplyView::Failed(e@),
        }
    }
}

impl<T: View> View for FlowStep<T> {
    type V = FlowStepView<T::V>;

    open spec fn view(&self) -> FlowStepView<T::V> {
        match self {
            FlowStep::Run(a) => FlowStepView::Run(a@),
            FlowStep::Finished(Ok(v)) => FlowStepView::Finished(Ok(v@)),
            FlowStep::Finished(Err(e)) => FlowStepView::Finished(Err(e@)),
            FlowStep::ExpiryOutOfRange => FlowStepView::ExpiryOutOfRange,
        }
    }
}

/// Decides whether a lifetime of `seconds` from `now` stays inside the
/// calendar's range.
pub fn expiry_fits(now: Timestamp, seconds: u64) -> (r: bool)
    ensures
        r == expiry_in_range(now, seconds),
{
    let delta = seconds as i64;
    if delta < -MAX_DELTA_SECS || delta > MAX_DELTA_SECS {
        return false;
    }
    let at = now.secs as i128 + delta as i128;
    MIN_UTC_SECS as i128 <= at && at <= MAX_UTC_SECS as i128
}

// ---------------------------------------------------------------------------
// Shortening a URL
// ---------------------------------------------------------------------------

/// How many times a freshly drawn code may collide before shortening gives up.
pub const MAX_CODE_ATTEMPTS: u32 = 10;

pub open spec fn unique_code_failure() -> Seq<char> {
    "Failed to generate unique code"@
}

/// Where a shorten flow stands.
#[derive(Debug, Clone, Copy, PartialEq, Eq)]
pub enum ShortenStage {
    AwaitingExisting,
    AwaitingCodeCheck,
    AwaitingInsert,
    Finished,
}

/// A request to shorten a URL on its way through the URL table.
#[derive(Debug)]
pub struct ShortenFlow {
    base_url: String,
    original_url: String,
    expires_in: Option<u64>,
    code: String,
    attempts: u32,
    stage: ShortenStage,
}

pub struct ShortenFlowView {
    pub base_url: Seq<char>,
    pub original_url: Seq<char>,
    pub expires_in: Option<u64>,
    pub code: Seq<char>,
    pub attempts: int,
    pub stage: ShortenStage,
}

impl View for ShortenFlow {
    type V = ShortenFlowView;

    closed spec fn view(&self) -> ShortenFlowView {
        ShortenFlowView {
            base_url: self.base_url@,
            original_url: self.original_url@,
            expires_in: self.expires_in,
            code: self.code@,
            attempts: self.attempts as int,
            stage: self.stage,
        }
    }
}

pub open spec fn shorten_finished(s: ShortenFlowView) -> ShortenFlowView {
    ShortenFlowView { stage: ShortenStage::Finished, ..s }
}

/// The flow's state agrees with the expected one: equal, or both finished
/// (a finished flow's other fields no longer matter).
pub open spec fn shorten_agrees(actual: ShortenFlowView, expected: ShortenFlowView) -> bool {
    if expected.stage == ShortenStage::Finished {
        actual.stage == ShortenStage::Finished
    } else {
        actual == expected
    }
}

/// The insert that ends a shorten flow, with the expiry computed at `now`.
pub open spec fn shorten_insert(s: ShortenFlowView, now: Timestamp) -> (
    ShortenFlowView,
    FlowStepView<ShortenResponseView>,
) {
    let waiting = ShortenFlowView { stage: ShortenStage::AwaitingInsert, ..s };
    match s.expires_in {
        None => (
            waiting,
            FlowStepView::Run(
                DbActionView::Insert {
                    short_code: s.code,
                    original_url: s.original_url,
                    expires_at: None,
                },
            ),
        ),
        Some(secs) => if expiry_in_range(now, secs) {
            (
                waiting,
                FlowStepView::Run(
                    DbActionView::Insert {
                        short_code: s.code,
                        original_url: s.original_url,
                        expires_at: Some(expiry_text(now, secs)),
                    },
                ),
            )
        } else {
            (shorten_finished(s), FlowStepView::ExpiryOutOfRange)
        },
    }
}

/// How a shorten request begins.
pub open spec fn shorten_begin(req: ShortenRequestView, base_url: Seq<char>, now: Timestamp) -> (
    ShortenFlowView,
    FlowStepView<ShortenResponseView>,
) {
    let s0 = ShortenFlowView {
        base_url,
        original_url: Seq::empty(),
        expires_in: req.expires_in,
        code: Seq::empty(),
        attempts: 0,
        stage: ShortenStage::Finished,
    };
    match validated_url(req.url) {
        Err(e) => (s0, FlowStepView::Finished(Err(e))),
        Ok(url) => {
            let s = ShortenFlowView { original_url: url, ..s0 };
            match req.custom_code {
                None => (
                    ShortenFlowView { stage: ShortenStage::AwaitingExisting, ..s },
                    FlowStepView::Run(DbActionView::FindByOriginal(url)),
                ),
                Some(code) => if custom_code_valid(code) {
                    shorten_insert(ShortenFlowView { code, ..s }, now)
                } else {
                    (
                        s,
                        FlowStepView::Finished(
                            Err(AppErrorView::InvalidUrl(custom_code_error(code))),
                        ),
                    )
                },
            }
        },
    }
}

/// The replies that a shorten flow can take in its current stage.
pub open spec fn shorten_expects(s: ShortenFlowView, reply: DbReplyView) -> bool {
    match s.stage {
        ShortenStage::AwaitingExisting | ShortenStage::AwaitingCodeCheck => reply is Found
            || reply is Failed,
        ShortenStage::AwaitingInsert => reply is Inserted || reply is Failed,
        ShortenStage::Finished => false,
    }
}

/// A found record that is still live at `now` and is handed out again.
pub open spec fn live_record(found: Option<UrlRecordView>, now: Timestamp) -> bool {
    found matches Some(rec) && !expired_at(rec.expires_at, now)
}

/// How a shorten flow goes on after `reply`, where `fresh` is the code that
/// the flow draws if it draws one.
pub open spec fn shorten_advance(
    s: ShortenFlowView,
    reply: DbReplyView,
    now: Timestamp,
    fresh: Seq<char>,
) -> (ShortenFlowView, FlowStepView<ShortenResponseView>) {
    match reply {
        DbReplyView::Failed(e) => (shorten_finished(s), FlowStepView::Finished(Err(e))),
        DbReplyView::Found(found) => if s.stage == ShortenStage::AwaitingExisting {
            if live_record(found, now) {
                (
                    shorten_finished(s),
                    FlowStepView::Finished(Ok(response_of(found->0, s.base_url))),
                )
            } else {
                (
                    ShortenFlowView {
                        code: fresh,
                        attempts: 0,
                        stage: ShortenStage::AwaitingCodeCheck,
                        ..s
                    },
                    FlowStepView::Run(DbActionView::FindByCode(fresh)),
                )
            }
        } else {
            match found {
                None => shorten_insert(s, now),
                Some(_) => if s.attempts + 1 > MAX_CODE_ATTEMPTS {
                    (
                        shorten_finished(s),
                        FlowStepView::Finished(
                            Err(AppErrorView::InternalError(unique_code_failure())),
                        ),
                    )
                } else {
                    (
                        ShortenFlowView { code: fresh, attempts: s.attempts + 1, ..s },
                        FlowStepView::Run(DbActionView::FindByCode(fresh)),
                    )
                },
            }
        },
        DbReplyView::Inserted(rec) => (
            shorten_finished(s),
            FlowStepView::Finished(Ok(response_of(rec, s.base_url))),
        ),
        _ => (shorten_finished(s), FlowStepView::ExpiryOutOfRange),
    }
}

/// Whether the step after `reply` draws a fresh code.
pub open spec fn shorten_draws(s: ShortenFlowView, reply: DbReplyView, now: Timestamp) -> bool {
    match reply {
        DbReplyView::Found(found) => if s.stage == ShortenStage::AwaitingExisting {
            !live_record(found, now)
        } else {
            found is Some && s.attempts + 1 <= MAX_CODE_ATTEMPTS
        },
        _ => false,
    }
}

/// An upper bound on the queries that a shorten flow may still ask for.
pub open spec fn shorten_budget(s: ShortenFlowView) -> int {
    match s.stage {
        ShortenStage::AwaitingExisting => 13,
        ShortenStage::AwaitingCodeCheck => 12 - s.attempts,
        ShortenStage::AwaitingInsert => 1,
        ShortenStage::Finished => 0,
    }
}

impl ShortenFlow {
    /// The flow's invariant: a bounded number of collisions so far.
    pub closed spec fn wf(&self) -> bool {
        self.attempts <= MAX_CODE_ATTEMPTS
    }

    fn finish(&mut self)
        ensures
            final(self)@ == shorten_finished(old(self)@),
    {
        self.stage = ShortenStage::Finished;
    }

    fn begin_insert(&mut self, now: Timestamp) -> (step: FlowStep<ShortenResponse>)
        requires
            old(self).wf(),
        ensures
            final(self).wf(),
            shorten_agrees(final(self)@, shorten_insert(old(self)@, now).0),
            step@ == shorten_insert(old(self)@, now).1,
    {
        let expires_at = match self.expires_in {
            None => None,
            Some(secs) => {
                if !expiry_fits(now, secs) {
                    self.finish();
                    return FlowStep::ExpiryOutOfRange;
                }
                Some(calculate_expiry(now, secs))
            },
        };
        self.stage = ShortenStage::AwaitingInsert;
        FlowStep::Run(
            DbAction::Insert {
                short_code: self.code.clone(),
                original_url: self.original_url.clone(),
                expires_at,
            },
        )
    }

    /// Goes on with the table's reply to the last query, at time `now`.
    /// Whether `reply` is one that the flow can take now: it is waiting for a
    /// query, and the reply is of the kind that query gives.
    pub fn expects(&self, reply: &DbReply) -> (r: bool)
        ensures
            r == (self.wf() && shorten_expects(self@, reply@)),
    {
        if self.attempts > MAX_CODE_ATTEMPTS {
            return false;
        }
        match self.stage {
            ShortenStage::AwaitingExisting | ShortenStage::AwaitingCodeCheck => match reply {
                DbReply::Found(_) | DbReply::Failed(_) => true,
                _ => false,
            },
            ShortenStage::AwaitingInsert => match reply {
                DbReply::Inserted(_) | DbReply::Failed(_) => true,
                _ => false,
            },
            ShortenStage::Finished => false,
        }
    }

    pub fn resume(&mut self, reply: DbReply, now: Timestamp) -> (step: FlowStep<ShortenResponse>)
        requires
            old(self).wf(),
            shorten_expects(old(self)@, reply@),
        ensures
            final(self).wf(),
            shorten_agrees(final(self)@, shorten_advance(old(self)@, reply@, now, final(self)@.code).0),
            step@ == shorten_advance(old(self)@, reply@, now, final(self)@.code).1,
            shorten_draws(old(self)@, reply@, now) ==> generated_code(final(self)@.code),
            shorten_draws(old(self)@, reply@, now) ==> random_draw(final(self)@.code),
            step is Run ==> 0 < shorten_budget(final(self)@) < shorten_budget(old(self)@),
            !(step is Run) ==> final(self)@.stage == ShortenStage::Finished,
    {
        match reply {
            DbReply::Failed(e) => {
                self.finish();
                FlowStep::Finished(Err(e))
            },
            DbReply::Found(found) => {
                match self.stage {
                    ShortenStage::AwaitingExisting => {
                        if let Some(rec) = &found {
                            if !is_expired_at(&rec.expires_at, now) {
                                self.finish();
                                return FlowStep::Finished(
                                    Ok(shorten_response(rec, self.base_url.as_str())),
                                );
                            }
                        }
                        let code = generate_short_code();
                        self.code = code.clone();
                        self.attempts = 0;
                        self.stage = ShortenStage::AwaitingCodeCheck;
                        FlowStep::Run(DbAction::FindByCode(code))
                    },
                    _ => {
                        match found {
                            None => self.begin_insert(now),
                            Some(_) => {
                                if self.attempts + 1 > MAX_CODE_ATTEMPTS {
                                    self.finish();
                                    let msg = String::from_str("Failed to generate unique code");
                                    FlowStep::Finished(Err(AppError::InternalError(msg)))
                                } else {
                                    let code = generate_short_code();
                                    self.code = code.clone();
                                    self.attempts = self.attempts + 1;
                                    FlowStep::Run(DbAction::FindByCode(code))
                                }
                            },
                        }
                    },
                }
            },
            DbReply::Inserted(rec) => {
                self.finish();
                FlowStep::Finished(Ok(shorten_response(&rec, self.base_url.as_str())))
            },
            _ => {
                assert(false);
                self.finish();
                FlowStep::ExpiryOutOfRange
            },
        }
    }
}

/// Starts shortening `request.url`: validates the URL and a chosen code, and
/// asks for the first query. `base_url` is the service's public address;
/// `now` is the time at which an expiry is computed.
pub fn shorten_url(request: ShortenRequest, base_url: &str, now: Timestamp) -> (r: (
    ShortenFlow,
    FlowStep<ShortenResponse>,
))
    ensures
        r.0.wf(),
        shorten_agrees(r.0@, shorten_begin(request@, base_url@, now).0),
        r.1@ == shorten_begin(request@, base_url@, now).1,
        r.1 is Run ==> 0 < shorten_budget(r.0@) <= 13,
        !(r.1 is Run) ==> r.0@.stage == ShortenStage::Finished,
{
    let mut flow = ShortenFlow {
        base_url: String::from_str(base_url),
        original_url: String::new(),
        expires_in: request.expires_in,
        code: String::new(),
        attempts: 0,
        stage: ShortenStage::Finished,
    };
    let original_url = match validate_url(request.url.as_str()) {
        Ok(u) => u,
        Err(e) => {
            return (flow, FlowStep::Finished(Err(e)));
        },
    };
    flow.original_url = original_url;
    match request.custom_code {
        None => {
            flow.stage = ShortenStage::AwaitingExisting;
            let query = flow.original_url.clone();
            (flow, FlowStep::Run(DbAction::FindByOriginal(query)))
        },
        Some(code) => {
            match validate_custom_code(code.as_str()) {
                Err(e) => (flow, FlowStep::Finished(Err(e))),
                Ok(()) => {
                    flow.code = code;
                    let step = flow.begin_insert(now);
                    (flow, step)
                },
            }
        },
    }
}

// ---------------------------------------------------------------------------
// Following a short code
// ---------------------------------------------------------------------------

/// Where a redirect flow stands.
#[derive(Debug, Clone, Copy, PartialEq, Eq)]
pub enum ResolveStage {
    AwaitingRecord,
    AwaitingIncrement,
    Finished,
}

/// A visit of a short code on its way through the URL table.
#[derive(Debug)]
pub struct ResolveFlow {
    code: String,
    original_url: String,
    stage: ResolveStage,
}

pub struct ResolveFlowView {
    pub code: Seq<char>,
    pub original_url: Seq<char>,
    pub stage: ResolveStage,
}

impl View for ResolveFlow {
    type V = ResolveFlowView;

    closed spec fn view(&self) -> ResolveFlowView {
        ResolveFlowView { code: self.code@, original_url: self.original_url@, stage: self.stage }
    }
}

pub open spec fn resolve_expects(s: ResolveFlowView, reply: DbReplyView) -> bool {
    match s.stage {
        ResolveStage::AwaitingRecord => reply is Found || reply is Failed,
        ResolveStage::AwaitingIncrement => reply is Incremented || reply is Failed,
        ResolveStage::Finished => false,
    }
}

/// How a redirect flow goes on after `reply` at time `now`.
pub open spec fn resolve_advance(s: ResolveFlowView, reply: DbReplyView, now: Timestamp) -> (
    ResolveFlowView,
    FlowStepView<Seq<char>>,
) {
    let done = ResolveFlowView { stage: ResolveStage::Finished, ..s };
    match reply {
        DbReplyView::Failed(e) => (done, FlowStepView::Finished(Err(e))),
        DbReplyView::Found(None) => (
            done,
            FlowStepView::Finished(Err(AppErrorView::CodeNotFound(s.code))),
        ),
        DbReplyView::Found(Some(rec)) => if expired_at(rec.expires_at, now) {
            (done, FlowStepView::Finished(Err(AppErrorView::UrlExpired(s.code))))
        } else {
            (
                ResolveFlowView {
                    original_url: rec.original_url,
                    stage: ResolveStage::AwaitingIncrement,
                    ..s
                },
                FlowStepView::Run(DbActionView::IncrementClicks(s.code)),
            )
        },
        DbReplyView::Incremented => (done, FlowStepView::Finished(Ok(s.original_url))),
        _ => (done, FlowStepView::ExpiryOutOfRange),
    }
}

pub open spec fn resolve_agrees(actual: ResolveFlowView, expected: ResolveFlowView) -> bool {
    if expected.stage == ResolveStage::Finished {
        actual.stage == ResolveStage::Finished
    } else {
        actual == expected
    }
}

impl ResolveFlow {
    /// Goes on with the table's reply to the last query, at time `now`.
    /// Whether `reply` is one that the flow can take now: it is waiting for a
    /// query, and the reply is of the kind that query gives.
    pub fn expects(&self, reply: &DbReply) -> (r: bool)
        ensures
            r == resolve_expects(self@, reply@),
    {
        match self.stage {
            ResolveStage::AwaitingRecord => match reply {
                DbReply::Found(_) | DbReply::Failed(_) => true,
                _ => false,
            },
            ResolveStage::AwaitingIncrement => match reply {
                DbReply::Incremented | DbReply::Failed(_) => true,
                _ => false,
            },
            ResolveStage::Finished => false,
        }
    }

    pub fn resume(&mut self, reply: DbReply, now: Timestamp) -> (step: FlowStep<String>)
        requires
            resolve_expects(old(self)@, reply@),
        ensures
            resolve_agrees(final(self)@, resolve_advance(old(self)@, reply@, now).0),
            step@ == resolve_advance(old(self)@, reply@, now).1,
            step is Run ==> final(self)@.stage == ResolveStage::AwaitingIncrement
                && old(self)@.stage == ResolveStage::AwaitingRecord,
            !(step is Run) ==> final(self)@.stage == ResolveStage::Finished,
    {
        match reply {
            DbReply::Failed(e) => {
                self.stage = ResolveStage::Finished;
                FlowStep::Finished(Err(e))
            },
            DbReply::Found(None) => {
                self.stage = ResolveStage::Finished;
                FlowStep::Finished(Err(AppError::CodeNotFound(self.code.clone())))
            },
            DbReply::Found(Some(rec)) => {
                if is_expired_at(&rec.expires_at, now) {
                    self.stage = ResolveStage::Finished;
                    FlowStep::Finished(Err(AppError::UrlExpired(self.code.clone())))
                } else {
                    self.original_url = rec.original_url;
                    self.stage = ResolveStage::AwaitingIncrement;
                    FlowStep::Run(DbAction::IncrementClicks(self.code.clone()))
                }
            },
            DbReply::Incremented => {
                self.stage = ResolveStage::Finished;
                FlowStep::Finished(Ok(self.original_url.clone()))
            },
            _ => {
                assert(false);
                self.stage = ResolveStage::Finished;
                FlowStep::ExpiryOutOfRange
            },
        }
    }
}

/// Starts following the short code `code`: it is looked up, checked for
/// expiry, counted, and answered with its original URL.
pub fn resolve_url(code: &str) -> (r: (ResolveFlow, FlowStep<String>))
    ensures
        r.0@ == (ResolveFlowView {
            code: code@,
            original_url: Seq::empty(),
            stage: ResolveStage::AwaitingRecord,
        }),
        r.1@ == FlowStepView::<Seq<char>>::Run(DbActionView::FindByCode(code@)),
{
    let flow = ResolveFlow {
        code: String::from_str(code),
        original_url: String::new(),
        stage: ResolveStage::AwaitingRecord,
    };
    (flow, FlowStep::Run(DbAction::FindByCode(String::from_str(code))))
}

// ---------------------------------------------------------------------------
// Statistics and deletion
// ---------------------------------------------------------------------------

/// A statistics or deletion request on its way through the URL table.
#[derive(Debug)]
pub struct CodeFlow {
    code: String,
    finished: bool,
}

pub struct CodeFlowView {
    pub code: Seq<char>,
    pub finished: bool,
}

impl View for CodeFlow {
    type V = CodeFlowView;

    closed spec fn view(&self) -> CodeFlowView {
        CodeFlowView { code: self.code@, finished: self.finished }
    }
}

/// The answer to a statistics lookup of `code`.
pub open spec fn stats_answer(code: Seq<char>, reply: DbReplyView) -> FlowStepView<UrlStatsView> {
    match reply {
        DbReplyView::Failed(e) => FlowStepView::Finished(Err(e)),
        DbReplyView::Found(None) => FlowStepView::Finished(Err(AppErrorView::CodeNotFound(code))),
        DbReplyView::Found(Some(rec)) => FlowStepView::Finished(Ok(stats_of(rec))),
        _ => FlowStepView::ExpiryOutOfRange,
    }
}

/// The answer to the deletion of `code`.
pub open spec fn delete_answer(code: Seq<char>, reply: DbReplyView) -> FlowStepView<()> {
    match reply {
        DbReplyView::Failed(e) => FlowStepView::Finished(Err(e)),
        DbReplyView::Deleted(false) => FlowStepView::Finished(
            Err(AppErrorView::CodeNotFound(code)),
        ),
        DbReplyView::Deleted(true) => FlowStepView::Finished(Ok(())),
        _ => FlowStepView::ExpiryOutOfRange,
    }
}

impl CodeFlow {
    /// Whether the flow can take `reply` as the answer to its lookup.
    pub fn expects_lookup(&self, reply: &DbReply) -> (r: bool)
        ensures
            r == (!self@.finished && (reply@ is Found || reply@ is Failed)),
    {
        !self.finished && match reply {
            DbReply::Found(_) | DbReply::Failed(_) => true,
            _ => false,
        }
    }

    /// Whether the flow can take `reply` as the answer to its deletion.
    pub fn expects_deletion(&self, reply: &DbReply) -> (r: bool)
        ensures
            r == (!self@.finished && (reply@ is Deleted || reply@ is Failed)),
    {
        !self.finished && match reply {
            DbReply::Deleted(_) | DbReply::Failed(_) => true,
            _ => false,
        }
    }

    /// Answers a statistics request from the table's reply.
    pub fn finish_stats(&mut self, reply: DbReply) -> (step: FlowStep<UrlStats>)
        requires
            !old(self)@.finished,
            reply@ is Found || reply@ is Failed,
        ensures
            final(self)@ == (CodeFlowView { finished: true, ..old(self)@ }),
            step@ == stats_answer(old(self)@.code, reply@),
            reply@ matches DbReplyView::Found(Some(rec)) ==> (step@ matches FlowStepView::Finished(
                Ok(st),
            ) && st.short_code == rec.short_code && st.original_url == rec.original_url
                && st.click_count == rec.click_count && st.created_at == rec.created_at
                && st.expires_at == rec.expires_at),
    {
        self.finished = true;
        match reply {
            DbReply::Failed(e) => FlowStep::Finished(Err(e)),
            DbReply::Found(None) => FlowStep::Finished(
                Err(AppError::CodeNotFound(self.code.clone())),
            ),
            DbReply::Found(Some(rec)) => FlowStep::Finished(Ok(url_stats(&rec))),
            _ => {
                assert(false);
                FlowStep::ExpiryOutOfRange
            },
        }
    }

    /// Answers a deletion request from the table's reply.
    pub fn finish_delete(&mut self, reply: DbReply) -> (step: FlowStep<()>)
        requires
            !old(self)@.finished,
            reply@ is Deleted || reply@ is Failed,
        ensures
            final(self)@ == (CodeFlowView { finished: true, ..old(self)@ }),
            step@ == delete_answer(old(self)@.code, reply@),
    {
        self.finished = true;
        match reply {
            DbReply::Failed(e) => FlowStep::Finished(Err(e)),
            DbReply::Deleted(false) => FlowStep::Finished(
                Err(AppError::CodeNotFound(self.code.clone())),
            ),
            DbReply::Deleted(true) => FlowStep::Finished(Ok(())),
            _ => {
                assert(false);
                FlowStep::ExpiryOutOfRange
            },
        }
    }
}

/// Starts a statistics request for `code`: one lookup, answered with the
/// record's statistics.
pub fn get_stats(code: &str) -> (r: (CodeFlow, FlowStep<UrlStats>))
    ensures
        r.0@ == (CodeFlowView { code: code@, finished: false }),
        r.1@ == FlowStepView::<UrlStatsView>::Run(DbActionView::FindByCode(code@)),
{
    let flow = CodeFlow { code: String::from_str(code), finished: false };
    (flow, FlowStep::Run(DbAction::FindByCode(String::from_str(code))))
}

/// Starts the deletion of `code`: one delete, answered with success exactly
/// when a record was removed.
pub fn delete_short_url(code: &str) -> (r: (CodeFlow, FlowStep<()>))
    ensures
        r.0@ == (CodeFlowView { code: code@, finished: false }),
        r.1@ == FlowStepView::<()>::Run(DbActionView::Delete(code@)),
{
    let flow = CodeFlow { code: String::from_str(code), finished: false };
    (flow, FlowStep::Run(DbAction::Delete(String::from_str(code))))
}

} // verus!
