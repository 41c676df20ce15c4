//! The client side of one control exchange: which bytes go out for a
//! request and how the reply bytes are read.

use crate::protocol::Response;
use crate::protocol::decode_response;
use crate::protocol::spec_decode_response;
use vstd::prelude::*;

verus! {

/// The client-side reading of the server's reply bytes.
#[derive(Clone, Copy, Debug, PartialEq, Eq, Structural)]
pub enum ReplyOutcome {
    /// The request was accepted.
    Accepted,
    /// The server refused the request; the invocation fails.
    Refused,
    /// The reply bytes decode to no response; the invocation fails.
    Malformed,
}

/// Reads the server's reply: anything other than an `Accepted` response is
/// a failure of the invocation.
pub fn interpret_reply(raw: &[u8]) -> (r: ReplyOutcome)
    ensures
        match spec_decode_response(raw@) {
            Some(Response::Accepted) => r == ReplyOutcome::Accepted,
            Some(Response::Refused) => r == ReplyOutcome::Refused,
            None => r == ReplyOutcome::Malformed,
        },
{
    match decode_response(raw) {
        Ok(Response::Accepted) => ReplyOutcome::Accepted,
        Ok(Response::Refused) => ReplyOutcome::Refused,
        Err(_) => ReplyOutcome::Malformed,
    }
}

} // verus!
