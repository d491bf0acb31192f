//! Core of a podcast-feed bridge: it turns third-party media channels
//! (a Mixcloud user's cloudcasts, a YouTube channel or playlist) into a
//! normalized feed model, and resolves per-item download paths back to
//! live media URLs on demand.
//!
//! This crate holds the provider-agnostic model, the adapter registry,
//! the per-provider pagination / classification / selection logic, the
//! TTL cache, and the feed synthesizer. Network transport and the HTTP
//! surface live outside it and hand plain values in and out.

use vstd::prelude::*;

pub mod backends;
pub mod cache;
pub mod feed;
pub mod mixcloud;
pub mod model;
pub mod paths;
pub mod strutil;
pub mod youtube;

verus! {

/// The error kinds this library and its drivers distinguish.
///
/// Variants that describe upstream failures carry a plain-text detail
/// supplied by the driver that observed the failure.
#[derive(Debug, Clone)]
pub enum Error {
    /// A transport or upstream HTTP failure.
    Request(String),
    /// A provider response that could not be parsed.
    MalformedResponse(String),
    /// A provider-specific ID that could not be parsed.
    InvalidId(String),
    /// The external stream-resolution tool failed.
    Extraction(String),
    /// Stream or URL resolution yielded nothing usable.
    NoRedirectUrlFound,
    /// The requested back-end identifier is not supported.
    UnsupportedBackend(String),
}

impl Error {
    /// The HTTP status code a routing layer should answer with: a missing
    /// redirect maps to "not found", every other kind to a server error.
    pub fn status_code(&self) -> (code: u16)
        ensures
            code == (if self is NoRedirectUrlFound {
                404u16
            } else {
                500u16
            }),
    {
        match self {
            Error::NoRedirectUrlFound => 404,
            _ => 500,
        }
    }
}

} // verus!
