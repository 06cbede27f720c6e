//! The service's tower of HTTP layers, by name.
//!
//! Each layer is a thin wrapper: one tags the crash-reporter scope with the
//! request id, one with the request size, one with the response's status.
//! The types and their wrapping are here; the status mapping they report
//! with is `sentry_status_spec`, shared with the middleware module. The
//! trait impls that hook them into the HTTP stack belong to the unverified
//! edge.

use vstd::prelude::*;

use crate::middleware::sentry_status_spec;
use crate::middleware::SpanStatusKind;

verus! {

/// Marker for the request-id maker: a fresh time-ordered GUID per request.
#[derive(Clone, Copy)]
pub struct MakeRequestUuidV7;

/// Layer tagging the crash-reporter scope with the request id.
#[derive(Clone, Copy)]
pub struct SentryRequestIdLayer;

/// The service `SentryRequestIdLayer` wraps around the inner one.
#[derive(Clone, Copy)]
pub struct SentryRequestIdService<S> {
    pub service: S,
}

impl SentryRequestIdLayer {
    /// Wrap an inner service.
    pub fn layer<S>(&self, service: S) -> (r: SentryRequestIdService<S>)
        ensures
            r == (SentryRequestIdService { service }),
    {
        SentryRequestIdService { service }
    }
}

/// Layer tagging the crash-reporter scope with the request body size.
#[derive(Clone, Copy)]
pub struct SentryReportRequestSizeLayer;

/// The service `SentryReportRequestSizeLayer` wraps around the inner one.
#[derive(Clone, Copy)]
pub struct SentryReportRequestSizeService<S> {
    pub service: S,
}

impl SentryReportRequestSizeLayer {
    /// Wrap an inner service.
    pub fn layer<S>(&self, service: S) -> (r: SentryReportRequestSizeService<S>)
        ensures
            r == (SentryReportRequestSizeService { service }),
    {
        SentryReportRequestSizeService { service }
    }
}

/// Layer reporting each response's status code to the crash reporter.
#[derive(Clone)]
pub struct SentryReportStatusCodeLayer;

/// The service `SentryReportStatusCodeLayer` wraps around the inner one.
#[derive(Clone)]
pub struct SentryReportStatusCodeService<S> {
    pub inner: S,
}

impl SentryReportStatusCodeLayer {
    /// Wrap an inner service.
    pub fn layer<S>(&self, inner: S) -> (r: SentryReportStatusCodeService<S>)
        ensures
            r == (SentryReportStatusCodeService { inner }),
    {
        SentryReportStatusCodeService { inner }
    }
}

/// The span status this layer reports: only the three statuses the service
/// itself answers with are tagged; every other code reports nothing.
pub open spec fn reported_status_spec(code: u16) -> Option<SpanStatusKind> {
    if code == 500 {
        Some(SpanStatusKind::InternalError)
    } else if code == 400 {
        Some(SpanStatusKind::InvalidArgument)
    } else if code == 200 {
        Some(SpanStatusKind::Okay)
    } else {
        None
    }
}

/// The status tag for one response, if this layer reports one.
pub fn reported_status(code: u16) -> (r: Option<SpanStatusKind>)
    ensures
        r == reported_status_spec(code),
        r is Some ==> r->Some_0 == sentry_status_spec(code),
{
    match code {
        500 => Some(SpanStatusKind::InternalError),
        400 => Some(SpanStatusKind::InvalidArgument),
        200 => Some(SpanStatusKind::Okay),
        _ => None,
    }
}

} // verus!
