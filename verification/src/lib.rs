//! Core logic of a URL shortener: validation of submitted URLs and custom
//! codes, short-code generation, expiry handling, the request flows that
//! drive the URL table, error answers and per-client rate limiting.
//!
//! The flows in [`services`] decide every step of a request; the caller runs
//! the queries they ask for against the database and hands the replies back.
//! [`url_table`] states what the table answers and proves the laws that the
//! flows obey against it.

pub mod database;
pub mod draws;
pub mod error;
pub mod expiry;
pub mod models;
pub mod rate_limit;
pub mod services;
pub mod shortcode;
pub mod text;
pub mod url_table;
pub mod validation;

pub use error::{AppError, ErrorResponse};
pub use expiry::Timestamp;
pub use models::{
    ErrorBody, ErrorDetail, HealthResponse, ShortenRequest, ShortenResponse, UrlRecord, UrlStats,
};
pub use rate_limit::RateLimiter;
