//! The error type of the client.

use vstd::prelude::*;
use vstd::string::to_string_from_display_ensures;
use vstd::std_specs::convert::FromSpecImpl;
use std::num::ParseIntError;

verus! {

#[verifier::external_type_specification]
#[verifier::external_body]
pub struct ExParseIntError(ParseIntError);

/// Errors of the chat client.
#[derive(Debug)]
pub enum ClientError {
    Io(std::io::Error),
    Parse(ParseIntError),
    Connection(String),
    Handshake(String),
    Send(String),
    Receive(String),
    Channel(String),
    Codec(String),
}

/// `prefix` followed by `text`.
pub(crate) fn join(prefix: &str, text: &str) -> (r: String)
    ensures
        r@ == prefix@ + text@,
{
    String::from_str(prefix).concat(text)
}

impl ClientError {
    /// The text that describes the error: a prefix that names its kind,
    /// then its own text.
    pub fn message(&self) -> (r: String)
        ensures
            match self {
                ClientError::Io(e) => exists|t: String|
                    to_string_from_display_ensures(e, t) && r@ == "IO error: "@ + t@,
                ClientError::Parse(e) => exists|t: String|
                    to_string_from_display_ensures(e, t) && r@ == "Parse error: "@ + t@,
                ClientError::Connection(s) => r@ == "Connection error: "@ + s@,
                ClientError::Handshake(s) => r@ == "Handshake error: "@ + s@,
                ClientError::Send(s) => r@ == "Send error: "@ + s@,
                ClientError::Receive(s) => r@ == "Receive error: "@ + s@,
                ClientError::Channel(s) => r@ == "Channel error: "@ + s@,
                ClientError::Codec(s) => r@ == "Codec error: "@ + s@,
            },
    {
        match self {
            ClientError::Io(e) => {
                let t = e.to_string();
                join("IO error: ", t.as_str())
            },
            ClientError::Parse(e) => {
                let t = e.to_string();
                join("Parse error: ", t.as_str())
            },
            ClientError::Connection(s) => join("Connection error: ", s.as_str()),
            ClientError::Handshake(s) => join("Handshake error: ", s.as_str()),
            ClientError::Send(s) => join("Send error: ", s.as_str()),
            ClientError::Receive(s) => join("Receive error: ", s.as_str()),
            ClientError::Channel(s) => join("Channel error: ", s.as_str()),
            ClientError::Codec(s) => join("Codec error: ", s.as_str()),
        }
    }
}

impl From<std::io::Error> for ClientError {
    fn from(e: std::io::Error) -> (r: ClientError) {
        ClientError::Io(e)
    }
}

impl FromSpecImpl<std::io::Error> for ClientError {
    open spec fn obeys_from_spec() -> bool {
        true
    }

    open spec fn from_spec(e: std::io::Error) -> ClientError {
        ClientError::Io(e)
    }
}

impl From<ParseIntError> for ClientError {
    fn from(e: ParseIntError) -> (r: ClientError) {
        ClientError::Parse(e)
    }
}

impl FromSpecImpl<ParseIntError> for ClientError {
    open spec fn obeys_from_spec() -> bool {
        true
    }

    open spec fn from_spec(e: ParseIntError) -> ClientError {
        ClientError::Parse(e)
    }
}

} // verus!
