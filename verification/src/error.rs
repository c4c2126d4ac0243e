use vstd::prelude::*;
use vstd::string::{is_ascii_spec_bytes, StringSliceAdditionalSpecFns};

verus! {

/// The faults a connection can end with.
#[derive(Clone, Copy, Debug, PartialEq, Eq, Structural)]
pub enum ProtocolError {
    /// A frame header or an argument area cannot be decoded.
    MalformedFrame,
    /// A request names an object that cannot serve it, or a new id that is
    /// already bound.
    InvalidObject,
    /// A required file descriptor is missing or an enum value is out of range.
    ProtocolViolation,
    /// A shared-memory pool could not be mapped.
    MappingError,
    /// A shared-memory pool could not be resized in place.
    ResizeFailed,
    /// The peer closed the stream.
    PeerClosed,
}

impl ProtocolError {
    /// Whether the fault ends the connection with an error, as opposed to the
    /// clean teardown after the peer has closed the stream.
    pub open spec fn fatal(self) -> bool {
        self != ProtocolError::PeerClosed
    }

    pub fn is_fatal(&self) -> (fatal: bool)
        ensures
            fatal == self.fatal(),
    {
        match self {
            ProtocolError::PeerClosed => false,
            _ => true,
        }
    }

    /// The code under which the fault is reported to the client in
    /// `display.error`: 0 for an invalid object, 1 for a request that is
    /// malformed or not allowed, 2 for memory that could not be had, 3 for
    /// anything else.
    pub open spec fn error_code(self) -> u32 {
        match self {
            ProtocolError::InvalidObject => 0,
            ProtocolError::MalformedFrame => 1,
            ProtocolError::ProtocolViolation => 1,
            ProtocolError::MappingError => 2,
            ProtocolError::ResizeFailed => 2,
            ProtocolError::PeerClosed => 3,
        }
    }

    /// The code under which the fault is reported to the client.
    pub fn code(&self) -> (code: u32)
        ensures
            code == self.error_code(),
    {
        match self {
            ProtocolError::InvalidObject => 0,
            ProtocolError::MalformedFrame => 1,
            ProtocolError::ProtocolViolation => 1,
            ProtocolError::MappingError => 2,
            ProtocolError::ResizeFailed => 2,
            ProtocolError::PeerClosed => 3,
        }
    }

    /// The words in which the fault is reported to the client.
    pub open spec fn message(self) -> &'static str {
        match self {
            ProtocolError::MalformedFrame => "malformed frame",
            ProtocolError::InvalidObject => "invalid object",
            ProtocolError::ProtocolViolation => "protocol violation",
            ProtocolError::MappingError => "mapping failed",
            ProtocolError::ResizeFailed => "resize failed",
            ProtocolError::PeerClosed => "peer closed",
        }
    }

    /// The words in which the fault is reported to the client.
    pub fn as_str(&self) -> (message: &'static str)
        ensures
            message == self.message(),
    {
        match self {
            ProtocolError::MalformedFrame => "malformed frame",
            ProtocolError::InvalidObject => "invalid object",
            ProtocolError::ProtocolViolation => "protocol violation",
            ProtocolError::MappingError => "mapping failed",
            ProtocolError::ResizeFailed => "resize failed",
            ProtocolError::PeerClosed => "peer closed",
        }
    }
}

/// Every message is plain ASCII of at most 18 characters, so its bytes on
/// the wire are its characters.
pub proof fn lemma_error_message(error: ProtocolError)
    ensures
        error.message().spec_bytes().len() == error.message()@.len(),
        error.message()@.len() <= 18,
{
    reveal_strlit("malformed frame");
    reveal_strlit("invalid object");
    reveal_strlit("protocol violation");
    reveal_strlit("mapping failed");
    reveal_strlit("resize failed");
    reveal_strlit("peer closed");
    is_ascii_spec_bytes(error.message());
}

} // verus!
