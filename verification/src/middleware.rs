//! Request-tracking middleware pieces.
//!
//! The HTTP stack tags every request with a fresh time-ordered GUID and
//! reports request and response facts to the crash reporter. The types here
//! name those layers, and the mapping from an HTTP status code to a span
//! status — the one decision in them — is stated exactly. The trait
//! plumbing around them belongs to the unverified HTTP edge.

use vstd::prelude::*;

verus! {

/// Marker for the request-id maker: a fresh time-ordered GUID per request.
#[derive(Clone, Copy)]
pub struct MakeRequestUuidV7;

/// The crash-reporter span statuses the service maps onto.
#[derive(Clone, Copy, PartialEq, Eq, Structural, Debug)]
pub enum SpanStatusKind {
    /// The span ended well (the reporter's own name for this is plain OK).
    Okay,
    Unauthenticated,
    PermissionDenied,
    NotFound,
    AlreadyExists,
    FailedPrecondition,
    ResourceExhausted,
    Unimplemented,
    Unavailable,
    DeadlineExceeded,
    InvalidArgument,
    InternalError,
    UnknownError,
}

/// The span status reported for each HTTP status code: the named codes
/// map one to one, and the rest go by their class — informational,
/// redirection and success are fine, client errors are invalid arguments,
/// server errors are internal, anything else is unknown.
pub open spec fn sentry_status_spec(code: u16) -> SpanStatusKind {
    if code == 200 {
        SpanStatusKind::Okay
    } else if code == 401 {
        SpanStatusKind::Unauthenticated
    } else if code == 403 {
        SpanStatusKind::PermissionDenied
    } else if code == 404 {
        SpanStatusKind::NotFound
    } else if code == 409 {
        SpanStatusKind::AlreadyExists
    } else if code == 412 {
        SpanStatusKind::FailedPrecondition
    } else if code == 429 {
        SpanStatusKind::ResourceExhausted
    } else if code == 501 {
        SpanStatusKind::Unimplemented
    } else if code == 503 {
        SpanStatusKind::Unavailable
    } else if code == 408 {
        SpanStatusKind::DeadlineExceeded
    } else if 100 <= code && code <= 399 {
        SpanStatusKind::Okay
    } else if 400 <= code && code <= 499 {
        SpanStatusKind::InvalidArgument
    } else if 500 <= code && code <= 599 {
        SpanStatusKind::InternalError
    } else {
        SpanStatusKind::UnknownError
    }
}

/// Map an HTTP status code to the span status reported for it.
pub fn convert_http_status_to_sentry_status(code: u16) -> (r: SpanStatusKind)
    ensures
        r == sentry_status_spec(code),
{
    match code {
        200 => SpanStatusKind::Okay,
        401 => SpanStatusKind::Unauthenticated,
        403 => SpanStatusKind::PermissionDenied,
        404 => SpanStatusKind::NotFound,
        409 => SpanStatusKind::AlreadyExists,
        412 => SpanStatusKind::FailedPrecondition,
        429 => SpanStatusKind::ResourceExhausted,
        501 => SpanStatusKind::Unimplemented,
        503 => SpanStatusKind::Unavailable,
        408 => SpanStatusKind::DeadlineExceeded,
        other => {
            if 100 <= other && other <= 399 {
                SpanStatusKind::Okay
            } else if 400 <= other && other <= 499 {
                SpanStatusKind::InvalidArgument
            } else if 500 <= other && other <= 599 {
                SpanStatusKind::InternalError
            } else {
                SpanStatusKind::UnknownError
            }
        },
    }
}

/// Layer that reports request facts — size, request id, response status —
/// to the crash reporter.
#[derive(Clone)]
pub struct SentryReportRequestInfoLayer;

/// The service the layer wraps around the inner one.
#[derive(Clone)]
pub struct SentryReportRequestInfoService<S> {
    pub inner: S,
}

impl SentryReportRequestInfoLayer {
    /// Wrap an inner service.
    pub fn layer<S>(&self, inner: S) -> (r: SentryReportRequestInfoService<S>)
        ensures
            r == (SentryReportRequestInfoService { inner }),
    {
        SentryReportRequestInfoService { inner }
    }
}

} // verus!
