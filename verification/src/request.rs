//! The request snapshot and its builder.
//!
//! A snapshot is created once, at ingress, from the raw pieces of an inbound
//! request; it is never mutated afterwards and is shared by reference with
//! every consumer. A capture failure is reported as a typed result — it must
//! never crash the serving process.

use vstd::prelude::*;

use crate::body::{BodySource, DrainError};
use crate::headers::HeaderMap;
use crate::target::{resolve, resolved_url, Target};

verus! {

/// Why a capture failed.
#[derive(Debug, PartialEq, Eq)]
pub enum CaptureError {
    /// The request target could not form a valid absolute URL.
    Transport,
    /// Draining the body failed: the transport broke mid-read, or the
    /// one-shot source had already been consumed.
    BodyRead(DrainError),
}

/// An immutable, fully materialized snapshot of one inbound request.
pub struct Request {
    /// The serialization of the request's absolute URL (scheme, authority,
    /// path and query); never origin-form.
    pub url: String,
    /// The HTTP method token, copied verbatim, case preserved.
    pub method: String,
    /// The headers, keyed case-insensitively, arrival order kept.
    pub headers: HeaderMap,
    /// The fully buffered body bytes; the original source is left consumed.
    pub body: Vec<u8>,
}

impl Request {
    /// Capture the raw pieces of an inbound request into a snapshot.
    ///
    /// The method token is copied verbatim. The target is resolved to an
    /// absolute URL — an origin-form target against `http://localhost` — and
    /// a target that cannot form a valid URL fails the capture with
    /// `Transport`, leaving the body source untouched. The header pairs are
    /// aggregated case-insensitively in arrival order. The body source is
    /// drained exactly once; a drain failure fails the capture with
    /// `BodyRead`, and in every drained outcome the source is left consumed.
    pub fn capture(
        method: String,
        target: Target,
        header_pairs: Vec<(String, Vec<u8>)>,
        body: &mut BodySource,
    ) -> (r: Result<Request, CaptureError>)
        ensures
            resolved_url(target) is None
                ==> (r matches Err(CaptureError::Transport) && *final(body) == *old(body)),
            resolved_url(target) is Some ==> *final(body) is Consumed,
            resolved_url(target) matches Some(u) ==> (*old(body) matches BodySource::Ready(b)
                ==> (r matches Ok(snap) && snap.url@ == u && snap.method == method
                && snap.headers.is_aggregate_of(header_pairs@) && snap.body == b)),
            resolved_url(target) is Some ==> (*old(body) matches BodySource::Broken(m)
                ==> (r matches Err(CaptureError::BodyRead(DrainError::Failed(m2))) && m2 == m)),
            (resolved_url(target) is Some && *old(body) is Consumed)
                ==> r matches Err(CaptureError::BodyRead(DrainError::AlreadyConsumed)),
    {
        let url = match resolve(target) {
            Some(u) => u,
            None => {
                return Err(CaptureError::Transport);
            },
        };
        let headers = HeaderMap::from_pairs(&header_pairs);
        let body_bytes = match body.drain() {
            Ok(b) => b,
            Err(e) => {
                return Err(CaptureError::BodyRead(e));
            },
        };
        Ok(Request { url, method, headers, body: body_bytes })
    }
}

} // verus!
