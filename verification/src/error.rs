//! The single error type for a fetch attempt.
//!
//! Every failure of the request/response cycle — a transport failure or a
//! body that does not match the schema — is surfaced as one abstract
//! "request failed" outcome; the variants differ only in their message text.

use vstd::prelude::*;

verus! {

/// Why a fetch attempt failed.
#[derive(Debug)]
pub enum FetchError {
    /// The network transaction itself failed (connection, send, receive).
    Transport(String),
    /// The body came back but is not a well-formed reply in the expected
    /// schema: malformed JSON, a missing required field, or a field whose
    /// value has the wrong type.
    Decode(String),
}

impl FetchError {
    /// The human-readable message carried by either variant.
    pub fn message(&self) -> (r: &str)
        ensures
            r@ == self.spec_message(),
    {
        match self {
            FetchError::Transport(m) => m.as_str(),
            FetchError::Decode(m) => m.as_str(),
        }
    }

    /// The message text, seen from specifications.
    pub open spec fn spec_message(&self) -> Seq<char> {
        match self {
            FetchError::Transport(m) => m@,
            FetchError::Decode(m) => m@,
        }
    }
}

} // verus!
