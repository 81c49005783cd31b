//! The error type shared by client and server code.

use vstd::prelude::*;
use bincode::error::{DecodeError, EncodeError};
use vstd::std_specs::convert::FromSpecImpl;

verus! {

#[verifier::external_type_specification]
#[verifier::external_body]
pub struct ExIoError(std::io::Error);

/// Errors of the chat protocol.
#[derive(Debug)]
pub enum ChatError {
    /// I/O error.
    Io(std::io::Error),
    /// A value could not be written in the wire format.
    Encode(EncodeError),
    /// Bytes could not be read in the wire format.
    Decode(DecodeError),
    /// Authentication failed, with the reason.
    AuthFailed(String),
    /// No connected client has this id.
    RecipientNotFound(u64),
    /// The peer broke the protocol.
    Protocol(String),
    /// Internal error.
    Internal(String),
}

impl From<std::io::Error> for ChatError {
    fn from(e: std::io::Error) -> (r: ChatError) {
        ChatError::Io(e)
    }
}

impl FromSpecImpl<std::io::Error> for ChatError {
    open spec fn obeys_from_spec() -> bool {
        true
    }

    open spec fn from_spec(e: std::io::Error) -> ChatError {
        ChatError::Io(e)
    }
}

impl From<EncodeError> for ChatError {
    fn from(e: EncodeError) -> (r: ChatError) {
        ChatError::Encode(e)
    }
}

impl FromSpecImpl<EncodeError> for ChatError {
    open spec fn obeys_from_spec() -> bool {
        true
    }

    open spec fn from_spec(e: EncodeError) -> ChatError {
        ChatError::Encode(e)
    }
}

impl From<DecodeError> for ChatError {
    fn from(e: DecodeError) -> (r: ChatError) {
        ChatError::Decode(e)
    }
}

impl FromSpecImpl<DecodeError> for ChatError {
    open spec fn obeys_from_spec() -> bool {
        true
    }

    open spec fn from_spec(e: DecodeError) -> ChatError {
        ChatError::Decode(e)
    }
}

/// Result of the chat protocol's operations.
pub type ChatResult<T> = Result<T, ChatError>;

} // verus!
