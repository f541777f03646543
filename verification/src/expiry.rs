use vstd::prelude::*;

use crate::models::opt_view;

verus! {

/// A moment in UTC: whole seconds since the Unix epoch and the nanoseconds
/// past that second.
#[derive(Clone, Copy, Debug, PartialEq, Eq)]
pub struct Timestamp {
    pub secs: i64,
    pub nanos: u32,
}

/// The earliest second that a `chrono::DateTime<Utc>` can hold
/// (1 January of the year -262143, 00:00:00).
pub const MIN_UTC_SECS: i64 = -8334601228800;

/// The latest second that a `chrono::DateTime<Utc>` can hold
/// (31 December of the year 262142, 23:59:59).
pub const MAX_UTC_SECS: i64 = 8210266876799;

/// The last second of the year 9999: up to it a stored expiry reads back as
/// the same second.
pub const MAX_FOUR_DIGIT_YEAR_SECS: i64 = 253402300799;

/// The largest whole number of seconds that a `chrono::TimeDelta` can hold,
/// in either direction.
pub const MAX_DELTA_SECS: i64 = 9223372036854775;

/// What `DateTime::<Utc>::from_timestamp(secs, 0)` formatted with
/// `"%Y-%m-%d %H:%M:%S"` gives, or `None` where chrono has no such moment.
pub uninterp spec fn formatted_utc(secs: int) -> Option<Seq<char>>;

/// What `NaiveDateTime::parse_from_str(s, "%Y-%m-%d %H:%M:%S")` gives, read
/// as seconds since the epoch (UTC), or `None` where parsing fails.
pub uninterp spec fn parsed_utc(s: Seq<char>) -> Option<int>;

/// Reads the system clock with `chrono::Utc::now`. The moment rests on the
/// clock and is not stated; chrono's source shows that the call returns only
/// moments inside chrono's range, with fewer than one billion nanoseconds.
/// The call panics when the system clock reads a time before 1970; that is
/// the machine's state, not an input, and no precondition can exclude it.
#[verifier::external_body]
pub(crate) fn current_time() -> (t: Timestamp)
    ensures
        MIN_UTC_SECS <= t.secs <= MAX_UTC_SECS,
        t.nanos < 1_000_000_000,
{
    let now = chrono::Utc::now();
    Timestamp { secs: now.timestamp(), nanos: now.timestamp_subsec_nanos() }
}

/// Formats the UTC moment `secs` seconds after the epoch with
/// `"%Y-%m-%d %H:%M:%S"` through chrono. The text is named `formatted_utc`;
/// chrono's source shows that every second in its range has a text, and
/// that the text of a second from the epoch to the end of the year 9999
/// (four-digit years) parses back, with `NaiveDateTime::parse_from_str` and
/// the same format, to that second.
#[verifier::external_body]
fn format_utc(secs: i64) -> (r: Option<String>)
    ensures
        match r {
            Some(s) => formatted_utc(secs as int) == Some(s@),
            None => formatted_utc(secs as int) is None,
        },
        MIN_UTC_SECS <= secs <= MAX_UTC_SECS ==> r is Some,
        0 <= secs <= MAX_FOUR_DIGIT_YEAR_SECS ==> parsed_utc(r->0@) == Some(secs as int),
{
    match chrono::DateTime::from_timestamp(secs, 0) {
        Some(d) => Some(d.format("%Y-%m-%d %H:%M:%S").to_string()),
        None => None,
    }
}

/// Parses `s` with `NaiveDateTime::parse_from_str` and the format
/// `"%Y-%m-%d %H:%M:%S"`, read as a UTC second. The result is named
/// `parsed_utc`; beside it stands what chrono's format and parser show
/// together: the text of a second from the epoch to the end of the year 9999
/// (four-digit years) parses back to that second.
#[verifier::external_body]
fn parse_utc(s: &str) -> (r: Option<i64>)
    ensures
        match r {
            Some(t) => parsed_utc(s@) == Some(t as int),
            None => parsed_utc(s@) is None,
        },
        forall|t: int|
            0 <= t <= MAX_FOUR_DIGIT_YEAR_SECS && #[trigger] formatted_utc(t) == Some(s@) ==> r
                == Some(t as i64),
{
    match chrono::NaiveDateTime::parse_from_str(s, "%Y-%m-%d %H:%M:%S") {
        Ok(d) => Some(d.and_utc().timestamp()),
        Err(_) => None,
    }
}

/// The signed number of seconds that `seconds` becomes when it is converted
/// to `i64`, as the expiry computation does.
pub open spec fn signed_seconds(seconds: u64) -> int {
    (seconds as i64) as int
}

/// The second at which an expiry set `seconds` after `now` falls.
pub open spec fn expiry_secs(now: Timestamp, seconds: u64) -> int {
    now.secs + signed_seconds(seconds)
}

/// `seconds`, converted to `i64`, is a delta that chrono can hold and lands
/// inside chrono's range when added to `now`.
pub open spec fn expiry_in_range(now: Timestamp, seconds: u64) -> bool {
    &&& -MAX_DELTA_SECS <= signed_seconds(seconds) <= MAX_DELTA_SECS
    &&& MIN_UTC_SECS <= expiry_secs(now, seconds) <= MAX_UTC_SECS
}

/// The expiry text for `seconds` after `now`.
pub open spec fn expiry_text(now: Timestamp, seconds: u64) -> Seq<char> {
    formatted_utc(expiry_secs(now, seconds)).unwrap()
}

/// The text of the moment `seconds` after `now`, to the second, as the URL
/// table stores expiries.
pub fn calculate_expiry(now: Timestamp, seconds: u64) -> (r: String)
    requires
        expiry_in_range(now, seconds),
    ensures
        r@ == expiry_text(now, seconds),
        formatted_utc(expiry_secs(now, seconds)) == Some(r@),
        0 <= expiry_secs(now, seconds) <= MAX_FOUR_DIGIT_YEAR_SECS ==> parsed_utc(r@) == Some(
            expiry_secs(now, seconds),
        ),
{
    let delta = seconds as i64;
    let at = now.secs + delta;
    match format_utc(at) {
        Some(s) => s,
        None => {
            assert(false);
            String::new()
        },
    }
}

/// `now` is later than the start of second `t`.
pub open spec fn after_second(now: Timestamp, t: int) -> bool {
    now.secs > t || (now.secs == t && now.nanos > 0)
}

/// Whether a parsed expiry second lies in the past at `now`; an unreadable
/// expiry (`None`) never expires.
pub open spec fn passed(parsed: Option<int>, now: Timestamp) -> bool {
    match parsed {
        None => false,
        Some(t) => after_second(now, t),
    }
}

/// Whether an optional expiry text lies in the past at `now`. An absent or
/// unreadable expiry never expires.
pub open spec fn expired_at(expires_at: Option<Seq<char>>, now: Timestamp) -> bool {
    match expires_at {
        None => false,
        Some(s) => passed(parsed_utc(s), now),
    }
}

/// Decides whether the expiry second that the parser gave lies in the past at
/// `now`.
pub fn expiry_passed(parsed: Option<i64>, now: Timestamp) -> (r: bool)
    ensures
        r == passed(
            match parsed {
                Some(t) => Some(t as int),
                None => None,
            },
            now,
        ),
{
    match parsed {
        None => false,
        Some(t) => now.secs > t || (now.secs == t && now.nanos > 0),
    }
}

/// Decides whether a record with the given expiry has expired at `now`.
pub fn is_expired_at(expires_at: &Option<String>, now: Timestamp) -> (r: bool)
    ensures
        r == expired_at(opt_view(*expires_at), now),
        forall|t: int|
            0 <= t <= MAX_FOUR_DIGIT_YEAR_SECS && expires_at is Some && #[trigger] formatted_utc(t)
                == Some(expires_at->0@) ==> r == after_second(now, t),
{
    match expires_at {
        None => false,
        Some(s) => expiry_passed(parse_utc(s.as_str()), now),
    }
}

/// A moment that the system clock can report.
pub open spec fn clock_moment(now: Timestamp) -> bool {
    MIN_UTC_SECS <= now.secs <= MAX_UTC_SECS && now.nanos < 1_000_000_000
}

/// Reads the system clock, as the request flows need it.
pub fn clock_now() -> (t: Timestamp)
    ensures
        clock_moment(t),
{
    current_time()
}

/// Decides whether a record with the given expiry has expired, at the time
/// read from the system clock: the answer is the decision at some moment
/// that the clock can report.
pub fn is_expired(expires_at: &Option<String>) -> (r: bool)
    ensures
        exists|now: Timestamp| #[trigger] clock_moment(now) && r == expired_at(opt_view(*expires_at), now),
        expires_at is None ==> !r,
        expires_at matches Some(s) && parsed_utc(s@) is None ==> !r,
{
    let now = current_time();
    let r = is_expired_at(expires_at, now);
    assert(clock_moment(now) && r == expired_at(opt_view(*expires_at), now));
    r
}

} // verus!
