use vstd::prelude::*;

use crate::models::{ErrorBody, ErrorBodyView, ErrorDetail};

verus! {

/// Errors that the service reports to its clients.
#[derive(Debug)]
pub enum AppError {
    InvalidUrl(String),
    CodeNotFound(String),
    CodeAlreadyExists(String),
    UrlExpired(String),
    DatabaseError(String),
    InternalError(String),
}

/// The mathematical value of an [`AppError`]: the variant and its text.
pub enum AppErrorView {
    InvalidUrl(Seq<char>),
    CodeNotFound(Seq<char>),
    CodeAlreadyExists(Seq<char>),
    UrlExpired(Seq<char>),
    DatabaseError(Seq<char>),
    InternalError(Seq<char>),
}

impl View for AppError {
    type V = AppErrorView;

    open spec fn view(&self) -> AppErrorView {
        match self {
            AppError::InvalidUrl(m) => AppErrorView::InvalidUrl(m@),
            AppError::CodeNotFound(m) => AppErrorView::CodeNotFound(m@),
            AppError::CodeAlreadyExists(m) => AppErrorView::CodeAlreadyExists(m@),
            AppError::UrlExpired(m) => AppErrorView::UrlExpired(m@),
            AppError::DatabaseError(m) => AppErrorView::DatabaseError(m@),
            AppError::InternalError(m) => AppErrorView::InternalError(m@),
        }
    }
}

} // verus!

verus! {

/// The view of a result that carries a string or an error.
pub open spec fn text_result_view(r: Result<String, AppError>) -> Result<Seq<char>, AppErrorView> {
    match r {
        Ok(s) => Ok(s@),
        Err(e) => Err(e@),
    }
}

} // verus!

verus! {

/// The HTTP status and the body of an error answer.
#[derive(Debug)]
pub struct ErrorResponse {
    pub status: u16,
    pub body: ErrorBody,
}

/// The text of an error, as the service prints it.
pub open spec fn error_text(e: AppErrorView) -> Seq<char> {
    match e {
        AppErrorView::InvalidUrl(m) => "Invalid URL: "@ + m,
        AppErrorView::CodeNotFound(c) => "Code not found: "@ + c,
        AppErrorView::CodeAlreadyExists(c) => "Code already exists: "@ + c,
        AppErrorView::UrlExpired(c) => "URL expired: "@ + c,
        AppErrorView::DatabaseError(m) => "Database error: "@ + m,
        AppErrorView::InternalError(m) => "Internal error: "@ + m,
    }
}

/// The HTTP status of an error answer.
pub open spec fn error_status(e: AppErrorView) -> u16 {
    match e {
        AppErrorView::InvalidUrl(_) => 400,
        AppErrorView::CodeNotFound(_) => 404,
        AppErrorView::CodeAlreadyExists(_) => 409,
        AppErrorView::UrlExpired(_) => 410,
        AppErrorView::DatabaseError(_) => 500,
        AppErrorView::InternalError(_) => 500,
    }
}

/// The body of an error answer: a code for programs and a message for people.
/// Database and internal failures are answered without their details.
pub open spec fn error_body(e: AppErrorView) -> ErrorBodyView {
    match e {
        AppErrorView::InvalidUrl(m) => ErrorBodyView { code: "INVALID_URL"@, message: m },
        AppErrorView::CodeNotFound(c) => ErrorBodyView {
            code: "CODE_NOT_FOUND"@,
            message: "Short code '"@ + c + "' not found"@,
        },
        AppErrorView::CodeAlreadyExists(c) => ErrorBodyView {
            code: "CODE_EXISTS"@,
            message: "Custom code '"@ + c + "' already exists"@,
        },
        AppErrorView::UrlExpired(c) => ErrorBodyView {
            code: "URL_EXPIRED"@,
            message: "Short URL '"@ + c + "' has expired"@,
        },
        AppErrorView::DatabaseError(_) => ErrorBodyView {
            code: "DATABASE_ERROR"@,
            message: "Internal database error"@,
        },
        AppErrorView::InternalError(_) => ErrorBodyView {
            code: "INTERNAL_ERROR"@,
            message: "An internal error occurred"@,
        },
    }
}

fn quoted(prefix: &str, inner: &str, suffix: &str) -> (r: String)
    ensures
        r@ == prefix@ + inner@ + suffix@,
{
    let mut r = String::from_str(prefix);
    r.append(inner);
    r.append(suffix);
    r
}

fn prefixed(prefix: &str, inner: &str) -> (r: String)
    ensures
        r@ == prefix@ + inner@,
{
    let mut r = String::from_str(prefix);
    r.append(inner);
    r
}

fn error_body_of(code: &str, message: String) -> (r: ErrorBody)
    ensures
        r@ == (ErrorBodyView { code: code@, message: message@ }),
{
    ErrorBody { error: ErrorDetail { code: String::from_str(code), message } }
}

impl AppError {
    /// The error's text, as the service prints it.
    pub fn to_string(&self) -> (r: String)
        ensures
            r@ == error_text(self@),
    {
        match self {
            AppError::InvalidUrl(m) => prefixed("Invalid URL: ", m.as_str()),
            AppError::CodeNotFound(c) => prefixed("Code not found: ", c.as_str()),
            AppError::CodeAlreadyExists(c) => prefixed("Code already exists: ", c.as_str()),
            AppError::UrlExpired(c) => prefixed("URL expired: ", c.as_str()),
            AppError::DatabaseError(m) => prefixed("Database error: ", m.as_str()),
            AppError::InternalError(m) => prefixed("Internal error: ", m.as_str()),
        }
    }

    /// The HTTP status and body with which the error is answered.
    pub fn to_response(&self) -> (r: ErrorResponse)
        ensures
            r.status == error_status(self@),
            r.body@ == error_body(self@),
    {
        match self {
            AppError::InvalidUrl(m) => ErrorResponse {
                status: 400,
                body: error_body_of("INVALID_URL", m.clone()),
            },
            AppError::CodeNotFound(c) => ErrorResponse {
                status: 404,
                body: error_body_of("CODE_NOT_FOUND", quoted("Short code '", c.as_str(), "' not found")),
            },
            AppError::CodeAlreadyExists(c) => ErrorResponse {
                status: 409,
                body: error_body_of(
                    "CODE_EXISTS",
                    quoted("Custom code '", c.as_str(), "' already exists"),
                ),
            },
            AppError::UrlExpired(c) => ErrorResponse {
                status: 410,
                body: error_body_of("URL_EXPIRED", quoted("Short URL '", c.as_str(), "' has expired")),
            },
            AppError::DatabaseError(_) => ErrorResponse {
                status: 500,
                body: error_body_of("DATABASE_ERROR", String::from_str("Internal database error")),
            },
            AppError::InternalError(_) => ErrorResponse {
                status: 500,
                body: error_body_of(
                    "INTERNAL_ERROR",
                    String::from_str("An internal error occurred"),
                ),
            },
        }
    }
}

} // verus!
