//! Error taxonomy of the engine.
//!
//! Every core operation returns a recoverable outcome; nothing in this
//! library panics on malformed caller input. Parse and validation errors
//! are produced before any backend contact; connection, execution and
//! type-conversion errors carry the backend's message for the caller to
//! surface or redact.

use vstd::prelude::*;

verus! {

/// A recoverable failure of a core operation.
///
/// Each variant carries a human-readable message naming the offending
/// token, identifier or column.
pub enum Error {
    /// A malformed identifier or path string.
    Parse(String),
    /// A structurally invalid query (missing measure, missing
    /// drilldown-or-cut, or an identifier that resolves to nothing).
    Validation(String),
    /// The backend connection failed (pool exhaustion, network, timeout).
    Connection(String),
    /// A native column type with no typed-column counterpart.
    TypeConversion(String),
    /// The backend rejected the SQL.
    Execution(String),
}

impl Error {
    /// The message carried by this error, whatever its variant.
    pub fn message(&self) -> (r: &String)
        ensures
            r@ == self.spec_message(),
    {
        match self {
            Error::Parse(m) => m,
            Error::Validation(m) => m,
            Error::Connection(m) => m,
            Error::TypeConversion(m) => m,
            Error::Execution(m) => m,
        }
    }

    /// The message carried by this error, as a character sequence.
    pub open spec fn spec_message(&self) -> Seq<char> {
        match self {
            Error::Parse(m) => m@,
            Error::Validation(m) => m@,
            Error::Connection(m) => m@,
            Error::TypeConversion(m) => m@,
            Error::Execution(m) => m@,
        }
    }
}

} // verus!
