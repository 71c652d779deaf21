//! Client-side driver for a replicated CRDT store speaking a length-prefixed,
//! tagged binary protocol: message framing, request/response codec, typed CRDT
//! operation builders, the transaction lifecycle, and response projection.

pub mod codec;
pub mod crdt;
pub mod decode;
pub mod frame;
pub mod messages;
pub mod projection;
pub mod responses;
pub mod session;

use vstd::prelude::*;

verus! {

/// Errors surfaced by the protocol layer, kept apart by category: a protocol
/// error marks a version/contract mismatch (unknown message kind, bytes that
/// do not parse as the kind's type), while an application failure is the
/// server reporting `success = false` and is recoverable by the caller.
#[derive(Clone, PartialEq, Eq, Structural, Debug)]
pub enum ClientError {
    /// The peer sent a message kind outside the protocol vocabulary.
    UnknownMessageKind,
    /// The payload did not parse as the type its kind demands.
    MalformedPayload,
    /// The peer answered with a message kind other than the one owed.
    UnexpectedMessageKind,
    /// The server reported failure for the request.
    ApplicationFailure,
    /// The request message is longer than a frame's length field can say.
    FrameTooLarge,
}

} // verus!
