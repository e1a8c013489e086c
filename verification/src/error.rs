//! The unified error channel: one sum type with a variant per failure
//! source, each carrying the underlying diagnostic text, and a single
//! rendering into a human-readable message.
//!
//! Callers can always tell the sources apart: a store that could not be
//! reached (`Store`), a store that executed a command but flagged the write
//! as failed (`WriteException`), a malformed document (`Decode`), a value
//! that could not be represented as a document (`Encode`), a result that
//! lacked an expected value (`Missing`), and a local I/O failure (`Io`).

use vstd::prelude::*;
use vstd::string::StringExecFns;

verus! {

/// One variant per failure source; each carries its diagnostic payload.
#[derive(Debug, Clone, PartialEq)]
pub enum Error {
    /// A local input/output failure.
    Io(String),
    /// An operation expected a present value and found none.
    Missing(String),
    /// A document did not have the shape a typed object requires.
    Decode(String),
    /// A typed value could not be represented as a document.
    Encode(String),
    /// The store could not be reached or rejected the command outright.
    Store(String),
    /// The store executed a write command but reported it failed.
    WriteException(String),
}

/// The diagnostic payload carried by an error.
pub open spec fn payload_of(e: Error) -> Seq<char> {
    match e {
        Error::Io(s) => s@,
        Error::Missing(s) => s@,
        Error::Decode(s) => s@,
        Error::Encode(s) => s@,
        Error::Store(s) => s@,
        Error::WriteException(s) => s@,
    }
}

/// The rendering prefix that names an error's source.
pub open spec fn prefix_of(e: Error) -> Seq<char> {
    match e {
        Error::Io(_) => "i/o error: "@,
        Error::Missing(_) => "missing value: "@,
        Error::Decode(_) => "decode error: "@,
        Error::Encode(_) => "encode error: "@,
        Error::Store(_) => "store error: "@,
        Error::WriteException(_) => "write exception: "@,
    }
}

/// The full rendered message of an error.
pub open spec fn message_of(e: Error) -> Seq<char> {
    prefix_of(e) + payload_of(e)
}

impl Error {
    /// Renders the error for display: the source's prefix followed by the
    /// diagnostic payload.
    pub fn message(&self) -> (r: String)
        ensures
            r@ == message_of(*self),
    {
        let prefix: String = match self {
            Error::Io(_) => String::from_str("i/o error: "),
            Error::Missing(_) => String::from_str("missing value: "),
            Error::Decode(_) => String::from_str("decode error: "),
            Error::Encode(_) => String::from_str("encode error: "),
            Error::Store(_) => String::from_str("store error: "),
            Error::WriteException(_) => String::from_str("write exception: "),
        };
        let payload: &String = match self {
            Error::Io(s) => s,
            Error::Missing(s) => s,
            Error::Decode(s) => s,
            Error::Encode(s) => s,
            Error::Store(s) => s,
            Error::WriteException(s) => s,
        };
        prefix.concat(payload.as_str())
    }
}

} // verus!
