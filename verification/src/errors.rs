//! The library's error type. Every failure is local: it is returned to the
//! immediate caller and never retried or logged internally.

use vstd::prelude::*;

verus! {

/// The class a failure belongs to.
#[derive(Clone, Copy, Debug, PartialEq, Eq, Structural)]
pub enum Kind {
    /// A transport-level failure, propagated from the dispatching layer.
    Http,
    /// A header value that could not be read back as text.
    HeaderToStrError,
    /// A header name or value that is not legal header syntax.
    InvalidHeader,
    /// An upstream byte-source failure.
    IoError,
    /// A malformed URL or host.
    UrlParsingError,
}

/// An error of this library: its class and a human-readable message.
#[derive(Debug)]
pub struct Error {
    pub kind: Kind,
    pub message: String,
}

impl Error {
    /// Creates an error of the given class.
    pub fn new(kind: Kind, message: String) -> (r: Error)
        ensures
            r.kind == kind,
            r.message == message,
    {
        Error { kind, message }
    }

    /// An error for a header value that is not legal header syntax.
    pub fn invalid_header(message: String) -> (r: Error)
        ensures
            r.kind == Kind::InvalidHeader,
            r.message == message,
    {
        Error { kind: Kind::InvalidHeader, message }
    }
}

} // verus!
