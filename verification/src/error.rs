//! The library's error type: what went wrong, which HTTP status and error code
//! it is answered with, whether a retry delay is advised, and its message.
use vstd::prelude::*;
use crate::text::push_text;
use crate::urls::{decimal_text, decimal_u64};

verus! {

/// Errors of the market-data service.
#[derive(Debug, Clone)]
pub enum AppError {
    /// The request itself is invalid; the text says why.
    BadRequest(String),
    /// A venue answered with an error.
    Upstream { venue: String, message: String },
    /// A venue (or the local request budget for it) refused for now.
    RateLimited { venue: String, message: String, retry_after_seconds: Option<u64> },
    /// A venue did not answer in time.
    Timeout(String),
    /// Two candle series share no opening timestamp.
    NoOverlap,
    /// The service has no free upstream slot.
    Busy,
    /// An unexpected internal failure.
    Internal,
}

impl AppError {
    /// The HTTP status that answers this error.
    pub open spec fn spec_status(&self) -> u16 {
        match self {
            AppError::BadRequest(_) => 400,
            AppError::Upstream { .. } => 502,
            AppError::RateLimited { .. } => 429,
            AppError::Timeout(_) => 504,
            AppError::NoOverlap => 422,
            AppError::Busy => 503,
            AppError::Internal => 500,
        }
    }

    /// The machine-readable error code sent in the response body.
    pub open spec fn spec_code(&self) -> Seq<char> {
        match self {
            AppError::BadRequest(_) => "bad_request"@,
            AppError::Upstream { .. } => "upstream_error"@,
            AppError::RateLimited { .. } => "upstream_rate_limited"@,
            AppError::Timeout(_) => "upstream_timeout"@,
            AppError::NoOverlap => "no_overlap"@,
            AppError::Busy => "busy"@,
            AppError::Internal => "internal_error"@,
        }
    }

    /// The `Retry-After` delay in seconds, where one is advised.
    pub open spec fn spec_retry_after(&self) -> Option<u64> {
        match self {
            AppError::Busy => Some(1),
            AppError::RateLimited { retry_after_seconds, .. } => *retry_after_seconds,
            _ => None,
        }
    }

    /// The human-readable message of this error.
    pub open spec fn spec_message(&self) -> Seq<char> {
        match self {
            AppError::BadRequest(m) => m@,
            AppError::Upstream { venue, message } => "venue `"@ + venue@
                + "` rejected the request: "@ + message@,
            AppError::RateLimited { venue, message, .. } => "venue `"@ + venue@
                + "` is temporarily rate-limited: "@ + message@,
            AppError::Timeout(v) => "venue `"@ + v@ + "` timed out"@,
            AppError::NoOverlap => "no candles overlap at identical timestamps"@,
            AppError::Busy => "service is busy; retry shortly"@,
            AppError::Internal => "internal server error"@,
        }
    }

    /// A copy of this error.
    pub fn duplicate(&self) -> (res: AppError)
        ensures
            res == *self,
    {
        match self {
            AppError::BadRequest(m) => AppError::BadRequest(m.clone()),
            AppError::Upstream { venue, message } => AppError::Upstream { venue: venue.clone(), message: message.clone() },
            AppError::RateLimited { venue, message, retry_after_seconds } => AppError::RateLimited {
                venue: venue.clone(),
                message: message.clone(),
                retry_after_seconds: *retry_after_seconds,
            },
            AppError::Timeout(v) => AppError::Timeout(v.clone()),
            AppError::NoOverlap => AppError::NoOverlap,
            AppError::Busy => AppError::Busy,
            AppError::Internal => AppError::Internal,
        }
    }

    /// The HTTP status that answers this error.
    pub fn status(&self) -> (res: u16)
        ensures
            res == self.spec_status(),
    {
        match self {
            AppError::BadRequest(_) => 400,
            AppError::Upstream { .. } => 502,
            AppError::RateLimited { .. } => 429,
            AppError::Timeout(_) => 504,
            AppError::NoOverlap => 422,
            AppError::Busy => 503,
            AppError::Internal => 500,
        }
    }

    /// The machine-readable error code sent in the response body.
    pub fn code(&self) -> (res: &'static str)
        ensures
            res@ == self.spec_code(),
    {
        match self {
            AppError::BadRequest(_) => "bad_request",
            AppError::Upstream { .. } => "upstream_error",
            AppError::RateLimited { .. } => "upstream_rate_limited",
            AppError::Timeout(_) => "upstream_timeout",
            AppError::NoOverlap => "no_overlap",
            AppError::Busy => "busy",
            AppError::Internal => "internal_error",
        }
    }

    /// The `Retry-After` delay in seconds, where one is advised.
    pub fn retry_after(&self) -> (res: Option<u64>)
        ensures
            res == self.spec_retry_after(),
    {
        match self {
            AppError::Busy => Some(1),
            AppError::RateLimited { retry_after_seconds, .. } => *retry_after_seconds,
            _ => None,
        }
    }

    /// The value of the `Retry-After` header sent with this error: the
    /// advised delay in decimal seconds, where one is advised.
    pub fn retry_after_header(&self) -> (res: Option<String>)
        ensures
            match self.spec_retry_after() {
                Some(s) => res matches Some(t) && t@ == decimal_text(s as int),
                None => res is None,
            },
    {
        match self.retry_after() {
            Some(s) => Some(decimal_u64(s)),
            None => None,
        }
    }

    /// The human-readable message of this error.
    pub fn message(&self) -> (res: String)
        ensures
            res@ == self.spec_message(),
    {
        let mut out = String::new();
        match self {
            AppError::BadRequest(m) => {
                push_text(&mut out, m.as_str());
            },
            AppError::Upstream { venue, message } => {
                push_text(&mut out, "venue `");
                push_text(&mut out, venue.as_str());
                push_text(&mut out, "` rejected the request: ");
                push_text(&mut out, message.as_str());
            },
            AppError::RateLimited { venue, message, .. } => {
                push_text(&mut out, "venue `");
                push_text(&mut out, venue.as_str());
                push_text(&mut out, "` is temporarily rate-limited: ");
                push_text(&mut out, message.as_str());
            },
            AppError::Timeout(v) => {
                push_text(&mut out, "venue `");
                push_text(&mut out, v.as_str());
                push_text(&mut out, "` timed out");
            },
            AppError::NoOverlap => {
                push_text(&mut out, "no candles overlap at identical timestamps");
            },
            AppError::Busy => {
                push_text(&mut out, "service is busy; retry shortly");
            },
            AppError::Internal => {
                push_text(&mut out, "internal server error");
            },
        }
        out
    }
}

} // verus!
