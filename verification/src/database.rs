//! The parts of opening and writing the URL table that decide something:
//! where the database file lies, how the connection is asked for, and how a
//! failed insert is reported.
use vstd::prelude::*;

use crate::error::{AppError, AppErrorView};
use crate::text::{contains_text, has_prefix, occurs_in, same_text, starts_with};

verus! {

/// The file that a database URL names, if it names one: the part after
/// `sqlite://`, unless that is the in-memory database.
pub open spec fn database_file(url: Seq<char>) -> Option<Seq<char>> {
    if has_prefix(url, "sqlite://"@) {
        let path = url.subrange(9, url.len() as int);
        if path == ":memory:"@ {
            None
        } else {
            Some(path)
        }
    } else {
        None
    }
}

/// The URL with which the database is opened, asking for the file to be
/// created when it is missing.
pub open spec fn connection_url(url: Seq<char>) -> Seq<char> {
    if url.contains('?') {
        url + "&create=true"@
    } else {
        url + "?mode=rwc"@
    }
}

/// Finds the database file that `database_url` names; `None` for URLs of
/// another form and for the in-memory database.
pub fn database_file_path(database_url: &str) -> (r: Option<String>)
    ensures
        match r {
            Some(p) => database_file(database_url@) == Some(p@),
            None => database_file(database_url@) is None,
        },
{
    proof {
        reveal_strlit("sqlite://");
    }
    if !starts_with(database_url, "sqlite://") {
        return None;
    }
    let n = database_url.unicode_len();
    let path = database_url.substring_char(9, n);
    if same_text(path, ":memory:") {
        None
    } else {
        Some(String::from_str(path))
    }
}

/// The URL with which the database is opened.
pub fn connect_url(database_url: &str) -> (r: String)
    ensures
        r@ == connection_url(database_url@),
{
    let has_query = contains_text(database_url, "?");
    proof {
        reveal_strlit("?");
        if has_query {
            let i = choose|i: int| crate::text::occurs_at(database_url@, "?"@, i);
            assert(database_url@.subrange(i, i + 1)[0] == '?');
            assert(database_url@[i] == '?');
        } else {
            assert forall|i: int| 0 <= i < database_url@.len() implies database_url@[i] != '?' by {
                if database_url@[i] == '?' {
                    assert(database_url@.subrange(i, i + 1) =~= "?"@);
                    assert(crate::text::occurs_at(database_url@, "?"@, i));
                }
            }
        }
    }
    let mut url = String::from_str(database_url);
    if has_query {
        url.append("&create=true");
    } else {
        url.append("?mode=rwc");
    }
    url
}

/// The error that a failed insert of `short_code` is reported as. A failure
/// of the database whose message names the `UNIQUE` constraint means the code
/// is taken; any other failure is reported with its text.
pub open spec fn insert_failure_error(
    short_code: Seq<char>,
    database_message: Option<Seq<char>>,
    error_text: Seq<char>,
) -> AppErrorView {
    if database_message matches Some(m) && occurs_in(m, "UNIQUE"@) {
        AppErrorView::CodeAlreadyExists(short_code)
    } else {
        AppErrorView::DatabaseError(error_text)
    }
}

/// Reports a failed insert of `short_code`. `database_message` is the
/// database's own message when the failure came from the database,
/// `error_text` the failure's full text.
pub fn insert_failure(short_code: &str, database_message: Option<&str>, error_text: &str) -> (r:
    AppError)
    ensures
        r@ == insert_failure_error(
            short_code@,
            match database_message {
                Some(m) => Some(m@),
                None => None,
            },
            error_text@,
        ),
{
    match database_message {
        Some(m) => {
            if contains_text(m, "UNIQUE") {
                return AppError::CodeAlreadyExists(String::from_str(short_code));
            }
        },
        None => {},
    }
    AppError::DatabaseError(String::from_str(error_text))
}

} // verus!
