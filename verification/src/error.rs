//! The error taxonomy of the library, with each failure's text and the
//! HTTP status it maps to in server mode.

use vstd::prelude::*;
use vstd::string::StrSliceExecFns;
use crate::bulk::BulkInputError;
use crate::names::InvalidCrateName;

verus! {

/// Everything that can go wrong across loading, augmenting and the bulk
/// pipeline.
#[derive(Debug)]
pub enum Error {
    /// No crate with the requested name is in the index: unknown, or
    /// filtered out at load time (the two are indistinguishable).
    NotFound,
    /// A malformed crate name.
    InvalidCrateName(InvalidCrateName),
    /// An I/O failure, as text.
    Io(String),
    /// The snapshot archive could not be read or parsed, as text.
    DbDump(String),
    /// Any other failure, as text.
    Other(String),
    /// Draining the bulk input failed.
    BulkInput(BulkInputError),
}

impl Error {
    /// The HTTP status code server mode answers with: not-found for an
    /// absent crate, bad-request for a malformed name, internal error
    /// for everything else.
    pub fn status_code(&self) -> (c: u16)
        ensures
            c == (match self {
                Error::NotFound => 404u16,
                Error::InvalidCrateName(_) => 400u16,
                _ => 500u16,
            }),
    {
        match self {
            Error::NotFound => 404,
            Error::InvalidCrateName(_) => 400,
            Error::Io(_) => 500,
            Error::Other(_) => 500,
            Error::BulkInput(_) => 500,
            Error::DbDump(_) => 500,
        }
    }

    /// The human-readable account of the failure.
    pub fn message(&self) -> (r: String)
        ensures
            (match self {
                Error::NotFound => r@ == "No crate with that name was found"@,
                Error::InvalidCrateName(e) => r@ == "That's not a valid crate name: "@
                    + "Invalid crate name: "@ + e@,
                Error::Io(t) => r@ == "IO error: "@ + t@,
                Error::DbDump(t) => r@ == "DB dump load error: "@ + t@,
                Error::Other(t) => r@ == "Error: "@ + t@,
                Error::BulkInput(e) => r@ == "Bulk input error: "@ + e.spec_message(),
            }),
    {
        match self {
            Error::NotFound => "No crate with that name was found".to_owned(),
            Error::InvalidCrateName(e) => {
                let mut r = "That's not a valid crate name: ".to_owned();
                let inner = e.message();
                r.append(inner.as_str());
                r
            },
            Error::Io(t) => {
                let mut r = "IO error: ".to_owned();
                r.append(t.as_str());
                r
            },
            Error::DbDump(t) => {
                let mut r = "DB dump load error: ".to_owned();
                r.append(t.as_str());
                r
            },
            Error::Other(t) => {
                let mut r = "Error: ".to_owned();
                r.append(t.as_str());
                r
            },
            Error::BulkInput(e) => {
                let mut r = "Bulk input error: ".to_owned();
                let inner = e.message();
                r.append(inner.as_str());
                r
            },
        }
    }
}

} // verus!
