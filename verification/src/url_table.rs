//! What the URL table answers to each query, as its schema (a unique short
//! code per row, ids counting up, click counts starting at zero) and the
//! queries of the service define it, and the laws that the request flows
//! obey when they run against such a table.
use vstd::prelude::*;

use crate::database::insert_failure_error;
use crate::error::AppErrorView;
use crate::expiry::{expired_at, expiry_in_range, expiry_text, Timestamp};
use crate::models::{response_of, short_url_of, ShortenRequestView, ShortenResponseView, UrlRecordView};
use crate::services::{
    delete_answer, resolve_advance, shorten_advance, shorten_begin, shorten_budget, shorten_insert,
    stats_answer, unique_code_failure, DbActionView, DbReplyView, FlowStepView, ResolveFlowView,
    ResolveStage, ShortenFlowView, ShortenStage, MAX_CODE_ATTEMPTS,
};
use crate::text::occurs_in;
use crate::validation::{custom_code_error, custom_code_valid, validated_url};

verus! {

/// The rows of the URL table in the order they were inserted, and the id
/// that the next row gets.
pub struct UrlTable {
    pub rows: Seq<UrlRecordView>,
    pub next_id: int,
}

/// No short code occurs in two rows.
pub open spec fn codes_unique(t: UrlTable) -> bool {
    forall|i: int, j: int|
        0 <= i < j < t.rows.len() ==> #[trigger] t.rows[i].short_code != #[trigger] t.rows[j].short_code
}

pub open spec fn has_code(t: UrlTable, code: Seq<char>) -> bool {
    exists|i: int| 0 <= i < t.rows.len() && #[trigger] t.rows[i].short_code == code
}

pub open spec fn code_index(t: UrlTable, code: Seq<char>) -> int {
    choose|i: int| 0 <= i < t.rows.len() && #[trigger] t.rows[i].short_code == code
}

/// The row of a short code.
pub open spec fn row_of(t: UrlTable, code: Seq<char>) -> UrlRecordView {
    t.rows[code_index(t, code)]
}

/// The answer to a lookup by short code.
pub open spec fn find_code(t: UrlTable, code: Seq<char>) -> Option<UrlRecordView> {
    if has_code(t, code) {
        Some(row_of(t, code))
    } else {
        None
    }
}

/// A row that holds the original URL `url`, if any. Which row a lookup by
/// URL answers when several hold the URL is left open: the laws below hold
/// whichever it is.
pub open spec fn row_with_url(rows: Seq<UrlRecordView>, url: Seq<char>) -> Option<UrlRecordView> {
    if exists|i: int| 0 <= i < rows.len() && #[trigger] rows[i].original_url == url {
        Some(rows[choose|i: int| 0 <= i < rows.len() && #[trigger] rows[i].original_url == url])
    } else {
        None
    }
}

/// A row with one more click if it holds `code`.
pub open spec fn clicked(r: UrlRecordView, code: Seq<char>) -> UrlRecordView {
    if r.short_code == code {
        UrlRecordView { click_count: r.click_count + 1, ..r }
    } else {
        r
    }
}

/// The row that an insert adds.
pub open spec fn new_row(
    t: UrlTable,
    code: Seq<char>,
    url: Seq<char>,
    expires_at: Option<Seq<char>>,
    created_at: Seq<char>,
) -> UrlRecordView {
    UrlRecordView {
        id: t.next_id,
        short_code: code,
        original_url: url,
        click_count: 0,
        created_at,
        expires_at,
    }
}

/// How the table answers a query and what it holds afterwards; a new row is
/// stamped with `created_at`.
pub open spec fn table_answer(t: UrlTable, a: DbActionView, created_at: Seq<char>) -> (
    UrlTable,
    DbReplyView,
) {
    match a {
        DbActionView::FindByOriginal(url) => (t, DbReplyView::Found(row_with_url(t.rows, url))),
        DbActionView::FindByCode(code) => (t, DbReplyView::Found(find_code(t, code))),
        DbActionView::Insert { short_code, original_url, expires_at } => if has_code(
            t,
            short_code,
        ) {
            (t, DbReplyView::Failed(AppErrorView::CodeAlreadyExists(short_code)))
        } else {
            let row = new_row(t, short_code, original_url, expires_at, created_at);
            (UrlTable { rows: t.rows.push(row), next_id: t.next_id + 1 }, DbReplyView::Inserted(row))
        },
        DbActionView::IncrementClicks(code) => (
            UrlTable { rows: t.rows.map_values(|r: UrlRecordView| clicked(r, code)), ..t },
            DbReplyView::Incremented,
        ),
        DbActionView::Delete(code) => (
            UrlTable { rows: t.rows.filter(|r: UrlRecordView| r.short_code != code), ..t },
            DbReplyView::Deleted(has_code(t, code)),
        ),
    }
}

/// A shorten flow run against the table until it answers (or `fuel` runs
/// out); the `i`-th reply is taken at `times[i]`, and `fresh` lists the codes
/// that the flow draws, in order.
pub open spec fn run_shorten(
    t: UrlTable,
    s: ShortenFlowView,
    step: FlowStepView<ShortenResponseView>,
    times: Seq<Timestamp>,
    created_at: Seq<char>,
    fresh: Seq<Seq<char>>,
    fuel: nat,
) -> (UrlTable, FlowStepView<ShortenResponseView>)
    decreases fuel,
{
    if fuel == 0 {
        (t, step)
    } else {
        match step {
            FlowStepView::Run(a) => {
                let answered = table_answer(t, a, created_at);
                let next = shorten_advance(s, answered.1, times[0], fresh[0]);
                run_shorten(
                    answered.0,
                    next.0,
                    next.1,
                    times.subrange(1, times.len() as int),
                    created_at,
                    fresh.subrange(1, fresh.len() as int),
                    (fuel - 1) as nat,
                )
            },
            _ => (t, step),
        }
    }
}

/// A shorten request served from the table: the table afterwards and the
/// answer. The request begins at `now`, and its `i`-th reply is taken at
/// `times[i]`.
pub open spec fn shorten_on_table(
    t: UrlTable,
    req: ShortenRequestView,
    base_url: Seq<char>,
    now: Timestamp,
    times: Seq<Timestamp>,
    created_at: Seq<char>,
    fresh: Seq<Seq<char>>,
) -> (UrlTable, FlowStepView<ShortenResponseView>) {
    let begun = shorten_begin(req, base_url, now);
    run_shorten(t, begun.0, begun.1, times, created_at, fresh, 13)
}

/// A visit of `code` served from the table, whose lookup is answered at
/// `now` (what follows the increment does not depend on the moment).
pub open spec fn resolve_on_table(t: UrlTable, code: Seq<char>, now: Timestamp) -> (
    UrlTable,
    FlowStepView<Seq<char>>,
) {
    let s0 = ResolveFlowView {
        code,
        original_url: Seq::empty(),
        stage: ResolveStage::AwaitingRecord,
    };
    let first = table_answer(t, DbActionView::FindByCode(code), Seq::empty());
    let next = resolve_advance(s0, first.1, now);
    match next.1 {
        FlowStepView::Run(a) => {
            let second = table_answer(first.0, a, Seq::empty());
            (second.0, resolve_advance(next.0, second.1, now).1)
        },
        _ => (first.0, next.1),
    }
}

/// A statistics request for `code` served from the table.
pub open spec fn stats_on_table(t: UrlTable, code: Seq<char>) -> FlowStepView<
    crate::models::UrlStatsView,
> {
    stats_answer(code, table_answer(t, DbActionView::FindByCode(code), Seq::empty()).1)
}

/// A deletion of `code` served from the table.
pub open spec fn delete_on_table(t: UrlTable, code: Seq<char>) -> (UrlTable, FlowStepView<()>) {
    let answered = table_answer(t, DbActionView::Delete(code), Seq::empty());
    (answered.0, delete_answer(code, answered.1))
}

proof fn lemma_find_unique(t: UrlTable, i: int)
    requires
        codes_unique(t),
        0 <= i < t.rows.len(),
    ensures
        has_code(t, t.rows[i].short_code),
        code_index(t, t.rows[i].short_code) == i,
        find_code(t, t.rows[i].short_code) == Some(t.rows[i]),
{
    let c = t.rows[i].short_code;
    assert(t.rows[i].short_code == c);
    let j = code_index(t, c);
    if j != i {
        if j < i {
            assert(t.rows[j].short_code != t.rows[i].short_code);
        } else {
            assert(t.rows[i].short_code != t.rows[j].short_code);
        }
    }
}

/// Shortening under a free custom code stores one new row, with the next
/// id, no clicks, the normalized URL and no expiry, and answers with that
/// row under its public address; the codes stay unique.
pub proof fn lemma_custom_code_shortening(
    t: UrlTable,
    req: ShortenRequestView,
    base_url: Seq<char>,
    now: Timestamp,
    times: Seq<Timestamp>,
    created_at: Seq<char>,
    fresh: Seq<Seq<char>>,
)
    requires
        codes_unique(t),
        validated_url(req.url) is Ok,
        req.custom_code is Some,
        custom_code_valid(req.custom_code->0),
        !has_code(t, req.custom_code->0),
        req.expires_in is None,
    ensures
        ({
            let code = req.custom_code->0;
            let row = new_row(t, code, validated_url(req.url)->Ok_0, None, created_at);
            let served = shorten_on_table(t, req, base_url, now, times, created_at, fresh);
            &&& served.0 == UrlTable { rows: t.rows.push(row), next_id: t.next_id + 1 }
            &&& served.1 == FlowStepView::<ShortenResponseView>::Finished(
                Ok(response_of(row, base_url)),
            )
            &&& response_of(row, base_url).short_url == short_url_of(base_url, code)
            &&& codes_unique(served.0)
        }),
{
    let code = req.custom_code->0;
    let row = new_row(t, code, validated_url(req.url)->Ok_0, None, created_at);
    let begun = shorten_begin(req, base_url, now);
    let answered = table_answer(t, begun.1->Run_0, created_at);
    let next = shorten_advance(begun.0, answered.1, times[0], fresh[0]);
    assert(run_shorten(
        answered.0,
        next.0,
        next.1,
        times.subrange(1, times.len() as int),
        created_at,
        fresh.subrange(1, fresh.len() as int),
        12,
    ) == (answered.0, next.1));
    let t2 = UrlTable { rows: t.rows.push(row), next_id: t.next_id + 1 };
    assert forall|i: int, j: int| 0 <= i < j < t2.rows.len() implies #[trigger] t2.rows[i].short_code
        != #[trigger] t2.rows[j].short_code by {
        if j == t.rows.len() {
            assert(t2.rows[i] == t.rows[i]);
        } else {
            assert(t2.rows[i] == t.rows[i]);
            assert(t2.rows[j] == t.rows[j]);
        }
    }
}

/// The table after one more click on `code`.
pub open spec fn with_click(t: UrlTable, code: Seq<char>) -> UrlTable {
    UrlTable { rows: t.rows.map_values(|r: UrlRecordView| clicked(r, code)), ..t }
}

/// Following a live short code answers its original URL and counts exactly
/// one click on it, on no other row; the codes stay unique.
pub proof fn lemma_redirect_counts_one_click(t: UrlTable, code: Seq<char>, now: Timestamp)
    requires
        codes_unique(t),
        has_code(t, code),
        !expired_at(row_of(t, code).expires_at, now),
    ensures
        resolve_on_table(t, code, now) == (
            with_click(t, code),
            FlowStepView::<Seq<char>>::Finished(Ok(row_of(t, code).original_url)),
        ),
        has_code(with_click(t, code), code),
        row_of(with_click(t, code), code).click_count == row_of(t, code).click_count + 1,
        forall|other: Seq<char>|
            other != code ==> #[trigger] find_code(with_click(t, code), other) == find_code(t, other),
        codes_unique(with_click(t, code)),
{
    let t2 = with_click(t, code);
    let i = code_index(t, code);
    lemma_find_unique(t, i);
    assert(t2.rows[i] == clicked(t.rows[i], code));
    assert(codes_unique(t2)) by {
        assert forall|a: int, b: int| 0 <= a < b < t2.rows.len() implies #[trigger] t2.rows[a].short_code
            != #[trigger] t2.rows[b].short_code by {
            assert(t2.rows[a].short_code == t.rows[a].short_code);
            assert(t2.rows[b].short_code == t.rows[b].short_code);
        }
    }
    assert(t2.rows[i].short_code == code);
    lemma_find_unique(t2, i);
    assert forall|other: Seq<char>| other != code implies #[trigger] find_code(t2, other)
        == find_code(t, other) by {
        if has_code(t, other) {
            let j = code_index(t, other);
            lemma_find_unique(t, j);
            assert(t2.rows[j] == t.rows[j]);
            lemma_find_unique(t2, j);
        }
        if has_code(t2, other) {
            let j = code_index(t2, other);
            assert(t2.rows[j] == t.rows[j]);
            assert(has_code(t, other));
        }
    }
}

/// A short code stored by shortening redirects to the normalized URL it was
/// stored with, and the visit is counted as its first click.
pub proof fn lemma_shortened_code_redirects(
    t: UrlTable,
    req: ShortenRequestView,
    base_url: Seq<char>,
    now: Timestamp,
    times: Seq<Timestamp>,
    created_at: Seq<char>,
    fresh: Seq<Seq<char>>,
    later: Timestamp,
)
    requires
        codes_unique(t),
        validated_url(req.url) is Ok,
        req.custom_code is Some,
        custom_code_valid(req.custom_code->0),
        !has_code(t, req.custom_code->0),
        req.expires_in is None,
    ensures
        ({
            let code = req.custom_code->0;
            let stored = shorten_on_table(t, req, base_url, now, times, created_at, fresh).0;
            let visited = resolve_on_table(stored, code, later);
            &&& visited.1 == FlowStepView::<Seq<char>>::Finished(Ok(validated_url(req.url)->Ok_0))
            &&& row_of(visited.0, code).click_count == 1
        }),
{
    let code = req.custom_code->0;
    lemma_custom_code_shortening(t, req, base_url, now, times, created_at, fresh);
    let stored = shorten_on_table(t, req, base_url, now, times, created_at, fresh).0;
    let n = t.rows.len() as int;
    assert(stored.rows[n].short_code == code);
    lemma_find_unique(stored, n);
    lemma_redirect_counts_one_click(stored, code, later);
}

/// Inserting a row under a short code that the table already holds is
/// refused with `CodeAlreadyExists` for that code and leaves the table as it
/// was, whatever the rest of the row; and a database failure whose message
/// names the `UNIQUE` constraint, as the table's unique index reports such an
/// insert, is reported as that same error.
pub proof fn lemma_insert_of_taken_code_is_refused(
    t: UrlTable,
    short_code: Seq<char>,
    original_url: Seq<char>,
    expires_at: Option<Seq<char>>,
    created_at: Seq<char>,
    database_message: Seq<char>,
    error_text: Seq<char>,
)
    requires
        has_code(t, short_code),
    ensures
        table_answer(t, DbActionView::Insert { short_code, original_url, expires_at }, created_at)
            == (t, DbReplyView::Failed(AppErrorView::CodeAlreadyExists(short_code))),
        occurs_in(database_message, "UNIQUE"@) ==> insert_failure_error(
            short_code,
            Some(database_message),
            error_text,
        ) == AppErrorView::CodeAlreadyExists(short_code),
{
}

/// Shortening under a custom code that is already taken is refused with
/// `CodeAlreadyExists` and leaves the table as it was.
pub proof fn lemma_taken_custom_code_is_refused(
    t: UrlTable,
    req: ShortenRequestView,
    base_url: Seq<char>,
    now: Timestamp,
    times: Seq<Timestamp>,
    created_at: Seq<char>,
    fresh: Seq<Seq<char>>,
)
    requires
        validated_url(req.url) is Ok,
        req.custom_code is Some,
        custom_code_valid(req.custom_code->0),
        has_code(t, req.custom_code->0),
        req.expires_in is None,
    ensures
        shorten_on_table(t, req, base_url, now, times, created_at, fresh) == (
            t,
            FlowStepView::<ShortenResponseView>::Finished(
                Err(AppErrorView::CodeAlreadyExists(req.custom_code->0)),
            ),
        ),
{
    let begun = shorten_begin(req, base_url, now);
    let answered = table_answer(t, begun.1->Run_0, created_at);
    let next = shorten_advance(begun.0, answered.1, times[0], fresh[0]);
    assert(run_shorten(
        answered.0,
        next.0,
        next.1,
        times.subrange(1, times.len() as int),
        created_at,
        fresh.subrange(1, fresh.len() as int),
        12,
    ) == (answered.0, next.1));
}

/// A request with an invalid custom code is refused with the broken rule's
/// message before any query is made.
pub proof fn lemma_invalid_custom_code_makes_no_query(
    t: UrlTable,
    req: ShortenRequestView,
    base_url: Seq<char>,
    now: Timestamp,
    times: Seq<Timestamp>,
    created_at: Seq<char>,
    fresh: Seq<Seq<char>>,
)
    requires
        validated_url(req.url) is Ok,
        req.custom_code is Some,
        !custom_code_valid(req.custom_code->0),
    ensures
        shorten_begin(req, base_url, now).1 == FlowStepView::<ShortenResponseView>::Finished(
            Err(AppErrorView::InvalidUrl(custom_code_error(req.custom_code->0))),
        ),
        shorten_on_table(t, req, base_url, now, times, created_at, fresh).0 == t,
{
}

/// A request for a URL that does not validate is refused with the
/// validation error before any query is made.
pub proof fn lemma_invalid_url_makes_no_query(
    t: UrlTable,
    req: ShortenRequestView,
    base_url: Seq<char>,
    now: Timestamp,
    times: Seq<Timestamp>,
    created_at: Seq<char>,
    fresh: Seq<Seq<char>>,
)
    requires
        validated_url(req.url) is Err,
    ensures
        shorten_on_table(t, req, base_url, now, times, created_at, fresh) == (
            t,
            FlowStepView::<ShortenResponseView>::Finished(Err(validated_url(req.url)->Err_0)),
        ),
{
}

/// Statistics of a stored code report its row as stored, field by field;
/// statistics of a code that is not stored answer `CodeNotFound`.
pub proof fn lemma_stats_report_stored_row(t: UrlTable, code: Seq<char>)
    ensures
        has_code(t, code) ==> (stats_on_table(t, code) matches FlowStepView::Finished(Ok(st)) && {
            &&& st.short_code == row_of(t, code).short_code
            &&& st.short_code == code
            &&& st.original_url == row_of(t, code).original_url
            &&& st.click_count == row_of(t, code).click_count
            &&& st.created_at == row_of(t, code).created_at
            &&& st.expires_at == row_of(t, code).expires_at
        }),
        !has_code(t, code) ==> stats_on_table(t, code) == FlowStepView::<
            crate::models::UrlStatsView,
        >::Finished(Err(AppErrorView::CodeNotFound(code))),
{
    if has_code(t, code) {
        crate::models::lemma_stats_report_the_row(row_of(t, code));
    }
}

/// After a short code is deleted, it is found no more: the deletion succeeds,
/// and statistics and visits of the code answer `CodeNotFound`.
pub proof fn lemma_deleted_code_is_gone(t: UrlTable, code: Seq<char>, now: Timestamp)
    requires
        has_code(t, code),
    ensures
        delete_on_table(t, code).1 == FlowStepView::<()>::Finished(Ok(())),
        !has_code(delete_on_table(t, code).0, code),
        stats_on_table(delete_on_table(t, code).0, code) == FlowStepView::<
            crate::models::UrlStatsView,
        >::Finished(Err(AppErrorView::CodeNotFound(code))),
        resolve_on_table(delete_on_table(t, code).0, code, now).1 == FlowStepView::<
            Seq<char>,
        >::Finished(Err(AppErrorView::CodeNotFound(code))),
{
    let pred = |r: UrlRecordView| r.short_code != code;
    let t2 = delete_on_table(t, code).0;
    assert(t2.rows == t.rows.filter(pred));
    if has_code(t2, code) {
        let i = code_index(t2, code);
        t.rows.lemma_filter_pred(pred, i);
    }
}

/// Deleting a short code that is not stored answers `CodeNotFound` and
/// leaves the table's rows as they were.
pub proof fn lemma_deleting_missing_code(t: UrlTable, code: Seq<char>)
    requires
        !has_code(t, code),
    ensures
        delete_on_table(t, code).1 == FlowStepView::<()>::Finished(
            Err(AppErrorView::CodeNotFound(code)),
        ),
        delete_on_table(t, code).0.rows =~= t.rows,
{
    let pred = |r: UrlRecordView| r.short_code != code;
    assert forall|i: int| 0 <= i < t.rows.len() implies pred(t.rows[i]) by {
        if !pred(t.rows[i]) {
            assert(has_code(t, code));
        }
    }
    lemma_filter_keeps_all(t.rows, pred);
}

proof fn lemma_filter_keeps_all(s: Seq<UrlRecordView>, pred: spec_fn(UrlRecordView) -> bool)
    requires
        forall|i: int| 0 <= i < s.len() ==> pred(s[i]),
    ensures
        s.filter(pred) == s,
    decreases s.len(),
{
    reveal(Seq::filter);
    if s.len() > 0 {
        lemma_filter_keeps_all(s.drop_last(), pred);
        assert(s.drop_last().push(s.last()) =~= s);
    }
}

/// Following an expired short code answers `UrlExpired` and counts no click.
pub proof fn lemma_expired_code_is_refused(t: UrlTable, code: Seq<char>, now: Timestamp)
    requires
        has_code(t, code),
        expired_at(row_of(t, code).expires_at, now),
    ensures
        resolve_on_table(t, code, now) == (
            t,
            FlowStepView::<Seq<char>>::Finished(Err(AppErrorView::UrlExpired(code))),
        ),
{
}

/// Shortening a URL without a custom code, when the lookup by the normalized
/// URL finds a row (any row that holds it) that is still live at the moment
/// of that first reply, answers that row and stores nothing.
pub proof fn lemma_live_url_is_reused(
    t: UrlTable,
    req: ShortenRequestView,
    base_url: Seq<char>,
    now: Timestamp,
    times: Seq<Timestamp>,
    created_at: Seq<char>,
    fresh: Seq<Seq<char>>,
)
    requires
        validated_url(req.url) is Ok,
        req.custom_code is None,
        row_with_url(t.rows, validated_url(req.url)->Ok_0) is Some,
        !expired_at(row_with_url(t.rows, validated_url(req.url)->Ok_0)->0.expires_at, times[0]),
    ensures
        shorten_on_table(t, req, base_url, now, times, created_at, fresh) == (
            t,
            FlowStepView::<ShortenResponseView>::Finished(
                Ok(response_of(row_with_url(t.rows, validated_url(req.url)->Ok_0)->0, base_url)),
            ),
        ),
{
    let begun = shorten_begin(req, base_url, now);
    let answered = table_answer(t, begun.1->Run_0, created_at);
    let next = shorten_advance(begun.0, answered.1, times[0], fresh[0]);
    assert(run_shorten(
        answered.0,
        next.0,
        next.1,
        times.subrange(1, times.len() as int),
        created_at,
        fresh.subrange(1, fresh.len() as int),
        12,
    ) == (answered.0, next.1));
}

proof fn lemma_only_row_with_url(rows: Seq<UrlRecordView>, row: UrlRecordView, url: Seq<char>)
    requires
        row_with_url(rows, url) is None,
        row.original_url == url,
    ensures
        row_with_url(rows.push(row), url) == Some(row),
{
    let pushed = rows.push(row);
    assert(pushed[rows.len() as int] == row);
    let k = choose|i: int| 0 <= i < pushed.len() && #[trigger] pushed[i].original_url == url;
    if k < rows.len() {
        assert(rows[k] == pushed[k]);
    }
}

/// Shortening the same URL twice without a custom code gives the same short
/// code, whenever each request runs and whatever moments its replies come
/// at: the first request stores a row under the code it drew, and the second
/// answers that row and stores nothing.
pub proof fn lemma_same_url_gets_same_code(
    t: UrlTable,
    req: ShortenRequestView,
    base_url: Seq<char>,
    now: Timestamp,
    times: Seq<Timestamp>,
    created_at: Seq<char>,
    fresh: Seq<Seq<char>>,
    later: Timestamp,
    times_later: Seq<Timestamp>,
    created_later: Seq<char>,
    fresh_later: Seq<Seq<char>>,
)
    requires
        validated_url(req.url) is Ok,
        req.custom_code is None,
        req.expires_in is None,
        row_with_url(t.rows, validated_url(req.url)->Ok_0) is None,
        fresh.len() >= 1,
        !has_code(t, fresh[0]),
    ensures
        ({
            let url = validated_url(req.url)->Ok_0;
            let row = new_row(t, fresh[0], url, None, created_at);
            let first = shorten_on_table(t, req, base_url, now, times, created_at, fresh);
            let second = shorten_on_table(
                first.0,
                req,
                base_url,
                later,
                times_later,
                created_later,
                fresh_later,
            );
            &&& first.1 == FlowStepView::<ShortenResponseView>::Finished(
                Ok(response_of(row, base_url)),
            )
            &&& second == (
                first.0,
                FlowStepView::<ShortenResponseView>::Finished(Ok(response_of(row, base_url))),
            )
        }),
{
    let url = validated_url(req.url)->Ok_0;
    let g = fresh[0];
    let row = new_row(t, g, url, None, created_at);
    let begun = shorten_begin(req, base_url, now);
    let a1 = table_answer(t, begun.1->Run_0, created_at);
    let n1 = shorten_advance(begun.0, a1.1, times[0], fresh[0]);
    let f1 = fresh.subrange(1, fresh.len() as int);
    let m1 = times.subrange(1, times.len() as int);
    assert(find_code(t, g) is None);
    let a2 = table_answer(a1.0, n1.1->Run_0, created_at);
    let n2 = shorten_advance(n1.0, a2.1, m1[0], f1[0]);
    let f2 = f1.subrange(1, f1.len() as int);
    let m2 = m1.subrange(1, m1.len() as int);
    let a3 = table_answer(a2.0, n2.1->Run_0, created_at);
    assert(a3.1 == DbReplyView::Inserted(row));
    let n3 = shorten_advance(n2.0, a3.1, m2[0], f2[0]);
    let f3 = f2.subrange(1, f2.len() as int);
    let m3 = m2.subrange(1, m2.len() as int);
    assert(run_shorten(a3.0, n3.0, n3.1, m3, created_at, f3, 10) == (a3.0, n3.1));
    assert(run_shorten(a2.0, n2.0, n2.1, m2, created_at, f2, 11) == (a3.0, n3.1));
    assert(run_shorten(a1.0, n1.0, n1.1, m1, created_at, f1, 12) == (a3.0, n3.1));
    let stored = a3.0;
    lemma_only_row_with_url(t.rows, row, url);
    assert(row_with_url(stored.rows, url) == Some(row));
    lemma_live_url_is_reused(stored, req, base_url, later, times_later, created_later, fresh_later);
}

/// The query that a shorten flow asks for fits its stage.
pub open spec fn shorten_consistent(s: ShortenFlowView, step: FlowStepView<ShortenResponseView>) -> bool {
    step matches FlowStepView::Run(a) ==> {
        ||| s.stage == ShortenStage::AwaitingExisting && a is FindByOriginal
        ||| s.stage == ShortenStage::AwaitingCodeCheck && a is FindByCode && 0 <= s.attempts
            <= MAX_CODE_ATTEMPTS
        ||| s.stage == ShortenStage::AwaitingInsert && a is Insert
    }
}

proof fn lemma_shorten_step_progresses(
    t: UrlTable,
    s: ShortenFlowView,
    step: FlowStepView<ShortenResponseView>,
    now: Timestamp,
    created_at: Seq<char>,
    fresh: Seq<char>,
)
    requires
        shorten_consistent(s, step),
        step is Run,
    ensures
        ({
            let answered = table_answer(t, step->Run_0, created_at);
            let next = shorten_advance(s, answered.1, now, fresh);
            &&& shorten_consistent(next.0, next.1)
            &&& next.1 is Run ==> shorten_budget(next.0) < shorten_budget(s)
            &&& shorten_budget(next.0) >= 0
        }),
{
}

proof fn lemma_run_shorten_answers(
    t: UrlTable,
    s: ShortenFlowView,
    step: FlowStepView<ShortenResponseView>,
    times: Seq<Timestamp>,
    created_at: Seq<char>,
    fresh: Seq<Seq<char>>,
    fuel: nat,
)
    requires
        shorten_consistent(s, step),
        step is Run ==> shorten_budget(s) <= fuel,
        shorten_budget(s) >= 0,
    ensures
        !(run_shorten(t, s, step, times, created_at, fresh, fuel).1 is Run),
    decreases fuel,
{
    if step is Run {
        let answered = table_answer(t, step->Run_0, created_at);
        let next = shorten_advance(s, answered.1, times[0], fresh[0]);
        lemma_shorten_step_progresses(t, s, step, times[0], created_at, fresh[0]);
        lemma_run_shorten_answers(
            answered.0,
            next.0,
            next.1,
            times.subrange(1, times.len() as int),
            created_at,
            fresh.subrange(1, fresh.len() as int),
            (fuel - 1) as nat,
        );
    }
}

/// Every shorten request is answered after at most 13 queries, whatever
/// the table holds, whatever codes are drawn and whatever moments the
/// replies come at.
pub proof fn lemma_shorten_always_answers(
    t: UrlTable,
    req: ShortenRequestView,
    base_url: Seq<char>,
    now: Timestamp,
    times: Seq<Timestamp>,
    created_at: Seq<char>,
    fresh: Seq<Seq<char>>,
)
    ensures
        !(shorten_on_table(t, req, base_url, now, times, created_at, fresh).1 is Run),
{
    let begun = shorten_begin(req, base_url, now);
    lemma_run_shorten_answers(t, begun.0, begun.1, times, created_at, fresh, 13);
}

/// The table after visits of `code` at each of `times`, in order.
pub open spec fn visits(t: UrlTable, code: Seq<char>, times: Seq<Timestamp>) -> UrlTable
    decreases times.len(),
{
    if times.len() == 0 {
        t
    } else {
        visits(
            resolve_on_table(t, code, times[0]).0,
            code,
            times.subrange(1, times.len() as int),
        )
    }
}

/// Statistics count every visit: after visits of a live code at `times`,
/// its statistics report the old click count plus the number of visits,
/// with the rest of the row unchanged.
pub proof fn lemma_stats_count_every_visit(t: UrlTable, code: Seq<char>, times: Seq<Timestamp>)
    requires
        codes_unique(t),
        has_code(t, code),
        forall|i: int| 0 <= i < times.len() ==> !expired_at(row_of(t, code).expires_at, #[trigger] times[i]),
    ensures
        codes_unique(visits(t, code, times)),
        has_code(visits(t, code, times), code),
        row_of(visits(t, code, times), code) == (UrlRecordView {
            click_count: row_of(t, code).click_count + times.len(),
            ..row_of(t, code)
        }),
        stats_on_table(visits(t, code, times), code) == FlowStepView::<
            crate::models::UrlStatsView,
        >::Finished(Ok(crate::models::stats_of(row_of(visits(t, code, times), code)))),
    decreases times.len(),
{
    if times.len() > 0 {
        lemma_redirect_counts_one_click(t, code, times[0]);
        let t1 = with_click(t, code);
        let i = code_index(t, code);
        lemma_find_unique(t, i);
        assert(t1.rows[i] == clicked(t.rows[i], code));
        lemma_find_unique(t1, i);
        let rest = times.subrange(1, times.len() as int);
        assert forall|j: int| 0 <= j < rest.len() implies !expired_at(
            row_of(t1, code).expires_at,
            #[trigger] rest[j],
        ) by {
            assert(rest[j] == times[j + 1]);
        }
        lemma_stats_count_every_visit(t1, code, rest);
    } else {
        let i = code_index(t, code);
        lemma_find_unique(t, i);
    }
}

// ---------------------------------------------------------------------------
// Laws over whole shorten runs
// ---------------------------------------------------------------------------

/// The short codes that a shorten flow looks up, in order, while it runs
/// against the table (as `run_shorten` runs it).
pub open spec fn code_lookups(
    t: UrlTable,
    s: ShortenFlowView,
    step: FlowStepView<ShortenResponseView>,
    times: Seq<Timestamp>,
    created_at: Seq<char>,
    fresh: Seq<Seq<char>>,
    fuel: nat,
) -> Seq<Seq<char>>
    decreases fuel,
{
    if fuel == 0 {
        Seq::empty()
    } else {
        match step {
            FlowStepView::Run(a) => {
                let answered = table_answer(t, a, created_at);
                let next = shorten_advance(s, answered.1, times[0], fresh[0]);
                let rest = code_lookups(
                    answered.0,
                    next.0,
                    next.1,
                    times.subrange(1, times.len() as int),
                    created_at,
                    fresh.subrange(1, fresh.len() as int),
                    (fuel - 1) as nat,
                );
                match a {
                    DbActionView::FindByCode(c) => seq![c] + rest,
                    _ => rest,
                }
            },
            _ => Seq::empty(),
        }
    }
}

/// The short codes that a shorten request served from the table looks up.
pub open spec fn shorten_lookups(
    t: UrlTable,
    req: ShortenRequestView,
    base_url: Seq<char>,
    now: Timestamp,
    times: Seq<Timestamp>,
    created_at: Seq<char>,
    fresh: Seq<Seq<char>>,
) -> Seq<Seq<char>> {
    let begun = shorten_begin(req, base_url, now);
    code_lookups(t, begun.0, begun.1, times, created_at, fresh, 13)
}

/// The expiry text that a new row gets for a lifetime of `expires_in`.
pub open spec fn expiry_for(expires_in: Option<u64>, now: Timestamp) -> Option<Seq<char>> {
    match expires_in {
        None => None,
        Some(secs) => Some(expiry_text(now, secs)),
    }
}

/// The requested lifetime, if any, stays inside the calendar's range.
pub open spec fn expiry_ok(expires_in: Option<u64>, now: Timestamp) -> bool {
    match expires_in {
        None => true,
        Some(secs) => expiry_in_range(now, secs),
    }
}

/// What the final insert of a shorten flow leads to.
pub open spec fn insert_outcome(
    t: UrlTable,
    code: Seq<char>,
    original_url: Seq<char>,
    base_url: Seq<char>,
    expires_in: Option<u64>,
    now: Timestamp,
    created_at: Seq<char>,
) -> (UrlTable, FlowStepView<ShortenResponseView>) {
    if !expiry_ok(expires_in, now) {
        (t, FlowStepView::ExpiryOutOfRange)
    } else if has_code(t, code) {
        (t, FlowStepView::Finished(Err(AppErrorView::CodeAlreadyExists(code))))
    } else {
        let row = new_row(t, code, original_url, expiry_for(expires_in, now), created_at);
        (
            UrlTable { rows: t.rows.push(row), next_id: t.next_id + 1 },
            FlowStepView::Finished(Ok(response_of(row, base_url))),
        )
    }
}

proof fn lemma_insert_run(
    t: UrlTable,
    s: ShortenFlowView,
    moment: Timestamp,
    times: Seq<Timestamp>,
    created_at: Seq<char>,
    fresh: Seq<Seq<char>>,
    fuel: nat,
)
    requires
        fuel >= 1,
    ensures
        ({
            let ins = shorten_insert(s, moment);
            &&& run_shorten(t, ins.0, ins.1, times, created_at, fresh, fuel) == insert_outcome(
                t,
                s.code,
                s.original_url,
                s.base_url,
                s.expires_in,
                moment,
                created_at,
            )
            &&& code_lookups(t, ins.0, ins.1, times, created_at, fresh, fuel).len() == 0
        }),
{
    let ins = shorten_insert(s, moment);
    if expiry_ok(s.expires_in, moment) {
        assert(ins.1 is Run);
        assert(ins.1->Run_0 == DbActionView::Insert {
            short_code: s.code,
            original_url: s.original_url,
            expires_at: expiry_for(s.expires_in, moment),
        });
        let answered = table_answer(t, ins.1->Run_0, created_at);
        let next = shorten_advance(ins.0, answered.1, times[0], fresh[0]);
        let f1 = fresh.subrange(1, fresh.len() as int);
        let m1 = times.subrange(1, times.len() as int);
        assert(!(next.1 is Run));
        assert(run_shorten(answered.0, next.0, next.1, m1, created_at, f1, (fuel - 1) as nat) == (
            answered.0,
            next.1,
        ));
        assert(code_lookups(answered.0, next.0, next.1, m1, created_at, f1, (fuel - 1) as nat)
            =~= Seq::<Seq<char>>::empty());
    }
}

proof fn lemma_code_loop(
    t: UrlTable,
    s: ShortenFlowView,
    times: Seq<Timestamp>,
    created_at: Seq<char>,
    fresh: Seq<Seq<char>>,
    fuel: nat,
)
    requires
        s.stage == ShortenStage::AwaitingCodeCheck,
        0 <= s.attempts <= MAX_CODE_ATTEMPTS,
        fuel >= 12 - s.attempts,
        times.len() >= fuel,
    ensures
        ({
            let step = FlowStepView::<ShortenResponseView>::Run(DbActionView::FindByCode(s.code));
            let run = run_shorten(t, s, step, times, created_at, fresh, fuel);
            let looks = code_lookups(t, s, step, times, created_at, fresh, fuel);
            let last = looks[looks.len() - 1];
            &&& 1 <= looks.len() <= 11 - s.attempts
            &&& looks[0] == s.code
            &&& forall|i: int| 0 <= i < looks.len() - 1 ==> has_code(t, #[trigger] looks[i])
            &&& has_code(t, last) ==> looks.len() == 11 - s.attempts && run == (
                t,
                FlowStepView::<ShortenResponseView>::Finished(
                    Err(AppErrorView::InternalError(unique_code_failure())),
                ),
            )
            &&& !has_code(t, last) ==> run == insert_outcome(
                t,
                last,
                s.original_url,
                s.base_url,
                s.expires_in,
                times[looks.len() - 1],
                created_at,
            )
        }),
    decreases fuel,
{
    let step = FlowStepView::<ShortenResponseView>::Run(DbActionView::FindByCode(s.code));
    let answered = table_answer(t, DbActionView::FindByCode(s.code), created_at);
    let next = shorten_advance(s, answered.1, times[0], fresh[0]);
    let f1 = fresh.subrange(1, fresh.len() as int);
    let m1 = times.subrange(1, times.len() as int);
    let fuel1 = (fuel - 1) as nat;
    assert(answered.0 == t);
    assert(run_shorten(t, s, step, times, created_at, fresh, fuel) == run_shorten(
        t,
        next.0,
        next.1,
        m1,
        created_at,
        f1,
        fuel1,
    ));
    let rest = code_lookups(t, next.0, next.1, m1, created_at, f1, fuel1);
    assert(code_lookups(t, s, step, times, created_at, fresh, fuel) == seq![s.code] + rest);
    if !has_code(t, s.code) {
        assert(find_code(t, s.code) is None);
        assert(next == shorten_insert(s, times[0]));
        lemma_insert_run(t, s, times[0], m1, created_at, f1, fuel1);
        assert(seq![s.code] + rest =~= seq![s.code]);
    } else if s.attempts + 1 > MAX_CODE_ATTEMPTS {
        assert(!(next.1 is Run));
        assert(run_shorten(t, next.0, next.1, m1, created_at, f1, fuel1) == (t, next.1));
        assert(rest =~= Seq::<Seq<char>>::empty());
        assert(seq![s.code] + rest =~= seq![s.code]);
    } else {
        let s2 = ShortenFlowView { code: fresh[0], attempts: s.attempts + 1, ..s };
        assert(next.0 == s2);
        lemma_code_loop(t, s2, m1, created_at, f1, fuel1);
        let all = seq![s.code] + rest;
        assert forall|i: int| 0 <= i < all.len() - 1 implies has_code(t, #[trigger] all[i]) by {
            if i > 0 {
                assert(all[i] == rest[i - 1]);
            }
        }
        assert(all[all.len() - 1] == rest[rest.len() - 1]);
        assert(m1[rest.len() - 1] == times[all.len() - 1]);
    }
}

/// The row that a lookup by URL answers, if any, holds that URL and is one
/// of the rows.
proof fn lemma_row_with_url_member(rows: Seq<UrlRecordView>, url: Seq<char>)
    ensures
        row_with_url(rows, url) matches Some(r) ==> r.original_url == url && rows.contains(r),
{
    if row_with_url(rows, url) is Some {
        let k = choose|i: int| 0 <= i < rows.len() && #[trigger] rows[i].original_url == url;
        assert(rows[k] == row_with_url(rows, url)->0);
    }
}

/// The live record that a request without a custom code is answered with,
/// if there is one.
pub open spec fn reusable(t: UrlTable, req: ShortenRequestView, now: Timestamp) -> bool {
    &&& req.custom_code is None
    &&& validated_url(req.url) is Ok
    &&& row_with_url(t.rows, validated_url(req.url)->Ok_0) matches Some(e)
    &&& !expired_at(e.expires_at, now)
}

/// What a whole shorten request does to the table, whatever it holds, and
/// whatever codes are drawn and moments read along the way (the request
/// begins at `now`, its `i`-th reply comes at `times[i]`):
/// - it is answered, after at most 11 lookups by short code;
/// - a request that is not answered with success leaves the table as it was;
/// - a success answers the normalized request URL under the base URL, with
///   the chosen custom code if there was one, and the answer is a stored row;
/// - that row is either a live record of the same URL (live when the first
///   reply comes), handed out again with the table unchanged, or exactly one
///   new row under a code that the table did not hold (for a drawn code, the
///   last one looked up), whose expiry counts from the moment the insert was
///   prepared: `now` for a custom code, else the moment of the reply that
///   found the last code free;
/// - giving up with "Failed to generate unique code" happens only without a
///   custom code, after 11 lookups of codes that were all taken.
pub proof fn lemma_shorten_run(
    t: UrlTable,
    req: ShortenRequestView,
    base_url: Seq<char>,
    now: Timestamp,
    times: Seq<Timestamp>,
    created_at: Seq<char>,
    fresh: Seq<Seq<char>>,
)
    requires
        times.len() >= 13,
    ensures
        ({
            let run = shorten_on_table(t, req, base_url, now, times, created_at, fresh);
            let looks = shorten_lookups(t, req, base_url, now, times, created_at, fresh);
            let moment = if req.custom_code is Some {
                now
            } else {
                times[looks.len() as int]
            };
            &&& !(run.1 is Run)
            &&& looks.len() <= 11
            &&& !(run.1 matches FlowStepView::Finished(Ok(_))) ==> run.0 == t
            &&& run.1 matches FlowStepView::Finished(Ok(r)) ==> {
                &&& validated_url(req.url) == Ok::<Seq<char>, AppErrorView>(r.original_url)
                &&& r.short_url == short_url_of(base_url, r.short_code)
                &&& req.custom_code matches Some(c) ==> r.short_code == c
                &&& exists|row: UrlRecordView| #[trigger] run.0.rows.contains(row) && r == response_of(
                    row,
                    base_url,
                ) && r.short_code == row.short_code && r.original_url == row.original_url
                    && r.created_at == row.created_at && r.expires_at == row.expires_at
                &&& if reusable(t, req, times[0]) {
                    &&& run.0 == t
                    &&& r == response_of(
                        row_with_url(t.rows, validated_url(req.url)->Ok_0)->0,
                        base_url,
                    )
                } else {
                    &&& !has_code(t, r.short_code)
                    &&& r.created_at == created_at
                    &&& r.expires_at == expiry_for(req.expires_in, moment)
                    &&& run.0 == UrlTable {
                        rows: t.rows.push(
                            new_row(
                                t,
                                r.short_code,
                                r.original_url,
                                expiry_for(req.expires_in, moment),
                                created_at,
                            ),
                        ),
                        next_id: t.next_id + 1,
                    }
                    &&& req.custom_code is None ==> looks.len() >= 1 && looks[looks.len() - 1]
                        == r.short_code
                }
            }
            &&& run.1 == FlowStepView::<ShortenResponseView>::Finished(
                Err(AppErrorView::InternalError(unique_code_failure())),
            ) ==> {
                &&& req.custom_code is None
                &&& looks.len() == 11
                &&& forall|i: int| 0 <= i < looks.len() ==> has_code(t, #[trigger] looks[i])
            }
        }),
{
    let run = shorten_on_table(t, req, base_url, now, times, created_at, fresh);
    let looks = shorten_lookups(t, req, base_url, now, times, created_at, fresh);
    let begun = shorten_begin(req, base_url, now);
    match validated_url(req.url) {
        Err(_) => {
            assert(looks =~= Seq::<Seq<char>>::empty());
        },
        Ok(url) => {
            match req.custom_code {
                Some(c) => {
                    if !custom_code_valid(c) {
                        assert(looks =~= Seq::<Seq<char>>::empty());
                    } else {
                        let s0 = ShortenFlowView {
                            base_url,
                            original_url: url,
                            expires_in: req.expires_in,
                            code: c,
                            attempts: 0,
                            stage: ShortenStage::Finished,
                        };
                        assert(begun == shorten_insert(s0, now));
                        lemma_insert_run(t, s0, now, times, created_at, fresh, 13);
                        if run.1 matches FlowStepView::Finished(Ok(r)) {
                            let row = new_row(t, c, url, expiry_for(req.expires_in, now), created_at);
                            assert(run.0.rows[t.rows.len() as int] == row);
                            assert(run.0.rows.contains(row));
                        }
                    }
                },
                None => {
                    let s0 = begun.0;
                    let answered = table_answer(t, begun.1->Run_0, created_at);
                    let first = row_with_url(t.rows, url);
                    assert(answered == (t, DbReplyView::Found(first)));
                    let next = shorten_advance(s0, answered.1, times[0], fresh[0]);
                    let f1 = fresh.subrange(1, fresh.len() as int);
                    let m1 = times.subrange(1, times.len() as int);
                    assert(run == run_shorten(t, next.0, next.1, m1, created_at, f1, 12));
                    assert(looks == code_lookups(t, next.0, next.1, m1, created_at, f1, 12));
                    lemma_row_with_url_member(t.rows, url);
                    if reusable(t, req, times[0]) {
                        assert(!(next.1 is Run));
                        assert(run == (t, next.1));
                        assert(looks =~= Seq::<Seq<char>>::empty());
                    } else {
                        let s1 = next.0;
                        assert(s1.stage == ShortenStage::AwaitingCodeCheck);
                        assert(next.1 == FlowStepView::<ShortenResponseView>::Run(
                            DbActionView::FindByCode(s1.code),
                        ));
                        lemma_code_loop(t, s1, m1, created_at, f1, 12);
                        let last = looks[looks.len() - 1];
                        assert(m1[looks.len() - 1] == times[looks.len() as int]);
                        if !has_code(t, last) {
                            if run.1 matches FlowStepView::Finished(Ok(r)) {
                                let moment = times[looks.len() as int];
                                let row = new_row(t, last, url, expiry_for(req.expires_in, moment), created_at);
                                assert(run.0.rows[t.rows.len() as int] == row);
                                assert(run.0.rows.contains(row));
                            }
                        }
                    }
                },
            }
        },
    }
}

/// A request without a custom code whose URL has only an expired record is
/// answered under a new code, stored in exactly one new row.
pub proof fn lemma_expired_record_gets_new_code(
    t: UrlTable,
    req: ShortenRequestView,
    base_url: Seq<char>,
    now: Timestamp,
    times: Seq<Timestamp>,
    created_at: Seq<char>,
    fresh: Seq<Seq<char>>,
)
    requires
        times.len() >= 13,
        req.custom_code is None,
        validated_url(req.url) is Ok,
        row_with_url(t.rows, validated_url(req.url)->Ok_0) is Some,
        expired_at(row_with_url(t.rows, validated_url(req.url)->Ok_0)->0.expires_at, times[0]),
        shorten_on_table(t, req, base_url, now, times, created_at, fresh).1 is Finished,
        shorten_on_table(t, req, base_url, now, times, created_at, fresh).1->Finished_0 is Ok,
    ensures
        ({
            let run = shorten_on_table(t, req, base_url, now, times, created_at, fresh);
            let r = run.1->Finished_0->Ok_0;
            let e = row_with_url(t.rows, validated_url(req.url)->Ok_0)->0;
            &&& r.short_code != e.short_code
            &&& run.0.rows.len() == t.rows.len() + 1
            &&& run.0.rows.subrange(0, t.rows.len() as int) == t.rows
            &&& run.0.rows[t.rows.len() as int].short_code == r.short_code
        }),
{
    let run = shorten_on_table(t, req, base_url, now, times, created_at, fresh);
    let url = validated_url(req.url)->Ok_0;
    lemma_shorten_run(t, req, base_url, now, times, created_at, fresh);
    lemma_row_with_url_member(t.rows, url);
    let e = row_with_url(t.rows, url)->0;
    let i = choose|i: int| 0 <= i < t.rows.len() && t.rows[i] == e;
    assert(t.rows[i].short_code == e.short_code);
    assert(run.0.rows.subrange(0, t.rows.len() as int) =~= t.rows);
}

} // verus!
