//! The request/response cycle, seen from the library.
//!
//! The binary performs the one HTTP GET and hands the outcome over as plain
//! values: the full body text on a completed transaction, or the transport's
//! error message. `complete_fetch` finishes the cycle: a transport failure
//! becomes the fetch's `Transport` error unchanged, and a body is decoded
//! against the reply schema, so exactly one attempt's outcome is produced.

use vstd::prelude::*;

use crate::error::FetchError;
use crate::schema::decode_response;
use crate::schema::spec_parse_response;
use crate::schema::AggregateResponse;

verus! {

/// Finish one fetch attempt from the transport's outcome. A transport
/// failure is surfaced as `Transport` with the same message; a received body
/// yields the reply it denotes, or `Decode` when it denotes none. No retry
/// happens at any level: one outcome in, one result out.
pub fn complete_fetch(outcome: Result<String, String>) -> (r: Result<
    AggregateResponse,
    FetchError,
>)
    ensures
        match outcome {
            Err(m) => r matches Err(FetchError::Transport(mm)) && mm@ == m@,
            Ok(body) => match r {
                Ok(resp) => spec_parse_response(body@) == Some(resp@),
                Err(e) => spec_parse_response(body@) is None && e is Decode,
            },
        },
{
    match outcome {
        Err(m) => Err(FetchError::Transport(m)),
        Ok(body) => decode_response(body.as_str()),
    }
}

} // verus!
