//! The error kinds the protocol surfaces to its callers.

use vstd::prelude::*;

verus! {

/// A non-recoverable protocol or store failure.
#[derive(Clone, Copy, PartialEq, Eq, Structural, Debug)]
pub enum ProtocolError {
    /// The reassembled file's hash differs from the expected one.
    HashMismatch,
    /// Export was attempted before the store was complete.
    MissingChunk,
    /// A datagram could not be decoded or had the wrong shape.
    BadFrame,
    /// A peer referenced a hash we have no session or store for.
    UnknownHash,
    /// Timeouts exceeded the retry ceiling.
    PeerUnresponsive,
    /// Local shutdown aborted the session.
    Cancelled,
    /// The bounded outbound queue overflowed while paused.
    Overrun,
    /// An underlying file or socket failure, reported by the caller.
    Io,
}

impl ProtocolError {
    /// The wire reason carried by a `nak`, and the caller-facing description.
    pub fn message(&self) -> (r: &'static str)
        ensures
            r@ == self.spec_message(),
    {
        match self {
            ProtocolError::HashMismatch => "hash mismatch",
            ProtocolError::MissingChunk => "missing chunk",
            ProtocolError::BadFrame => "bad frame",
            ProtocolError::UnknownHash => "unknown hash",
            ProtocolError::PeerUnresponsive => "peer unresponsive",
            ProtocolError::Cancelled => "cancelled",
            ProtocolError::Overrun => "overrun",
            ProtocolError::Io => "io error",
        }
    }

    /// What `message` returns, as a sequence of characters.
    pub open spec fn spec_message(self) -> Seq<char> {
        match self {
            ProtocolError::HashMismatch => "hash mismatch"@,
            ProtocolError::MissingChunk => "missing chunk"@,
            ProtocolError::BadFrame => "bad frame"@,
            ProtocolError::UnknownHash => "unknown hash"@,
            ProtocolError::PeerUnresponsive => "peer unresponsive"@,
            ProtocolError::Cancelled => "cancelled"@,
            ProtocolError::Overrun => "overrun"@,
            ProtocolError::Io => "io error"@,
        }
    }
}

} // verus!
