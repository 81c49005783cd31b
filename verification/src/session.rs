//! The client's side of the handshake: what it makes of the server's
//! replies to its requests. Sending the requests and waiting for the reply
//! frames is left to the caller, which hands over each reply as it came:
//! a frame, a failure of the connection, or the end of the connection.

use vstd::prelude::*;
use vstd::string::to_string_from_display_ensures;
use crate::client_error::{ClientError, join};
use crate::message::{
    AuthRequest, AuthResponse, ResponseView, parse_response, request_bytes, response_bytes,
    response_strings_fit, lemma_response_roundtrip,
};

verus! {

/// The three exchanges of the handshake a client runs.
#[derive(Clone, Copy)]
pub enum Exchange {
    Authenticate,
    Lookup,
    StartChat,
}

/// The error for a reply of the wrong kind.
pub open spec fn unexpected_text(x: Exchange) -> Seq<char> {
    match x {
        Exchange::StartChat => "Unexpected response from server during start_chat"@,
        _ => "Unexpected response from server"@,
    }
}

/// The prefix of the error for a refusal by the server.
pub open spec fn refused_prefix(x: Exchange) -> Seq<char> {
    match x {
        Exchange::Authenticate => "Authentication failed: "@,
        Exchange::Lookup => "Lookup failed: "@,
        Exchange::StartChat => "Start chat failed: "@,
    }
}

/// The prefix of the error for a failed connection.
pub open spec fn broken_prefix(x: Exchange) -> Seq<char> {
    match x {
        Exchange::Authenticate => "Handshake error: "@,
        Exchange::Lookup => "Lookup error: "@,
        Exchange::StartChat => "Start chat error: "@,
    }
}

/// The error for a connection closed before the reply.
pub open spec fn closed_text(x: Exchange) -> Seq<char> {
    match x {
        Exchange::Authenticate => "Connection closed during handshake"@,
        Exchange::Lookup => "Connection closed during lookup"@,
        Exchange::StartChat => "Connection closed during start_chat"@,
    }
}

/// The id that a response of the kind `x` expects carries, if it is that kind.
pub open spec fn expected_id(x: Exchange, r: ResponseView) -> Option<u64> {
    match (x, r) {
        (Exchange::Authenticate, ResponseView::Success { user_id }) => Some(user_id),
        (Exchange::Lookup, ResponseView::LookupResult { user_id }) => Some(user_id),
        (Exchange::StartChat, ResponseView::Success { user_id }) => Some(user_id),
        _ => None,
    }
}

/// What the client makes of `reply` in the exchange `x`: the id in the
/// expected response, or a handshake error whose text says what went wrong.
pub open spec fn reply_outcome(x: Exchange, reply: Option<Result<Vec<u8>, std::io::Error>>, r: Result<u64, ClientError>) -> bool {
    match reply {
        None => r matches Err(ClientError::Handshake(m)) && m@ == closed_text(x),
        Some(Err(e)) => r matches Err(ClientError::Handshake(m)) && exists|t: String|
            to_string_from_display_ensures(&e, t) && m@ == broken_prefix(x) + t@,
        Some(Ok(b)) => match parse_response(b@) {
            Some(resp) => match expected_id(x, resp) {
                Some(id) => r == Ok::<u64, ClientError>(id),
                None => match resp {
                    ResponseView::Failure { reason } => r matches Err(ClientError::Handshake(m))
                        && m@ == refused_prefix(x) + reason,
                    _ => r matches Err(ClientError::Handshake(m)) && m@ == unexpected_text(x),
                },
            },
            None => r matches Err(ClientError::Handshake(m)) && m@ == unexpected_text(x),
        },
    }
}

fn handshake_error(text: &str) -> (r: ClientError)
    ensures
        r matches ClientError::Handshake(m) && m@ == text@,
{
    ClientError::Handshake(String::from_str(text))
}

/// The AuthSession's reading of a reply in the exchange `x`.
pub fn read_reply(x: Exchange, reply: Option<Result<Vec<u8>, std::io::Error>>) -> (r: Result<u64, ClientError>)
    ensures
        reply_outcome(x, reply, r),
{
    match reply {
        None => match x {
            Exchange::Authenticate => Err(handshake_error("Connection closed during handshake")),
            Exchange::Lookup => Err(handshake_error("Connection closed during lookup")),
            Exchange::StartChat => Err(handshake_error("Connection closed during start_chat")),
        },
        Some(Err(e)) => {
            let t = e.to_string();
            let m = match x {
                Exchange::Authenticate => join("Handshake error: ", t.as_str()),
                Exchange::Lookup => join("Lookup error: ", t.as_str()),
                Exchange::StartChat => join("Start chat error: ", t.as_str()),
            };
            Err(ClientError::Handshake(m))
        },
        Some(Ok(raw)) => {
            let unexpected = match x {
                Exchange::StartChat => "Unexpected response from server during start_chat",
                _ => "Unexpected response from server",
            };
            match AuthResponse::decode(raw.as_slice()) {
                Ok(AuthResponse::Success { user_id }) => match x {
                    Exchange::Lookup => Err(handshake_error(unexpected)),
                    _ => Ok(user_id),
                },
                Ok(AuthResponse::LookupResult { user_id }) => match x {
                    Exchange::Lookup => Ok(user_id),
                    _ => Err(handshake_error(unexpected)),
                },
                Ok(AuthResponse::Failure { reason }) => {
                    let m = match x {
                        Exchange::Authenticate => join("Authentication failed: ", reason.as_str()),
                        Exchange::Lookup => join("Lookup failed: ", reason.as_str()),
                        Exchange::StartChat => join("Start chat failed: ", reason.as_str()),
                    };
                    Err(ClientError::Handshake(m))
                },
                Err(_) => Err(handshake_error(unexpected)),
            }
        },
    }
}

/// The name of the request in the exchange `x`, as errors about it say.
pub open spec fn request_name(x: Exchange) -> Seq<char> {
    match x {
        Exchange::Authenticate => "auth request"@,
        Exchange::Lookup => "lookup request"@,
        Exchange::StartChat => "start_chat request"@,
    }
}

/// The request's frame, ready to send.
pub fn request_frame(x: Exchange, req: &AuthRequest) -> (r: Result<Vec<u8>, ClientError>)
    ensures
        r matches Ok(b) && b@ == request_bytes(req@),
{
    match req.encode() {
        Ok(bytes) => Ok(bytes),
        Err(_) => Err(match x {
            Exchange::Authenticate => handshake_error("Failed to encode auth request"),
            Exchange::Lookup => handshake_error("Failed to encode lookup request"),
            Exchange::StartChat => handshake_error("Failed to encode start_chat request"),
        }),
    }
}

/// The error for a request that could not be sent.
pub fn send_failure(x: Exchange, e: std::io::Error) -> (r: ClientError)
    ensures
        r matches ClientError::Handshake(m) && exists|t: String|
            to_string_from_display_ensures(&e, t) && m@ == "Failed to send "@ + request_name(x)
                + ": "@ + t@,
{
    let t = e.to_string();
    let prefix = match x {
        Exchange::Authenticate => "Failed to send auth request: ",
        Exchange::Lookup => "Failed to send lookup request: ",
        Exchange::StartChat => "Failed to send start_chat request: ",
    };
    let m = join(prefix, t.as_str());
    proof {
        reveal_strlit("Failed to send auth request: ");
        reveal_strlit("Failed to send lookup request: ");
        reveal_strlit("Failed to send start_chat request: ");
        reveal_strlit("Failed to send ");
        reveal_strlit("auth request");
        reveal_strlit("lookup request");
        reveal_strlit("start_chat request");
        reveal_strlit(": ");
        assert("Failed to send auth request: "@ =~= "Failed to send "@ + "auth request"@ + ": "@);
        assert("Failed to send lookup request: "@ =~= "Failed to send "@ + "lookup request"@ + ": "@);
        assert("Failed to send start_chat request: "@ =~= "Failed to send "@ + "start_chat request"@ + ": "@);
    }
    ClientError::Handshake(m)
}

/// What the server sends is what the client reads: a reply frame holding the
/// response that the exchange expects gives its id, and one holding a
/// refusal gives a handshake error with the server's reason.
pub proof fn lemma_client_reads_server_response(
    x: Exchange,
    resp: ResponseView,
    frame: Vec<u8>,
    r: Result<u64, ClientError>,
)
    requires
        response_strings_fit(resp),
        frame@ == response_bytes(resp),
        reply_outcome(x, Some(Ok(frame)), r),
    ensures
        expected_id(x, resp) matches Some(id) ==> r == Ok::<u64, ClientError>(id),
        resp matches ResponseView::Failure { reason } ==> (r matches Err(ClientError::Handshake(m))
            && m@ == refused_prefix(x) + reason),
{
    lemma_response_roundtrip(resp, Seq::empty());
    assert(response_bytes(resp) + Seq::<u8>::empty() =~= response_bytes(resp));
}

/// Which reply each exchange accepts: authenticating and starting the chat
/// accept a success, a lookup accepts a lookup result, each giving the id it
/// carries; the other kind of reply is an unexpected response, and a refusal
/// gives the server's reason after the exchange's prefix.
pub proof fn lemma_reply_kinds(x: Exchange, id: u64, reason: Seq<char>, frame: Vec<u8>, r: Result<u64, ClientError>)
    requires
        reply_outcome(x, Some(Ok(frame)), r),
    ensures
        frame@ == response_bytes(ResponseView::Success { user_id: id }) ==> match x {
            Exchange::Lookup => r matches Err(ClientError::Handshake(m)) && m@ == "Unexpected response from server"@,
            _ => r == Ok::<u64, ClientError>(id),
        },
        frame@ == response_bytes(ResponseView::LookupResult { user_id: id }) ==> match x {
            Exchange::Lookup => r == Ok::<u64, ClientError>(id),
            Exchange::Authenticate => r matches Err(ClientError::Handshake(m)) && m@
                == "Unexpected response from server"@,
            Exchange::StartChat => r matches Err(ClientError::Handshake(m)) && m@
                == "Unexpected response from server during start_chat"@,
        },
        response_strings_fit(ResponseView::Failure { reason }) && frame@ == response_bytes(
            ResponseView::Failure { reason },
        ) ==> match x {
            Exchange::Authenticate => r matches Err(ClientError::Handshake(m)) && m@ == "Authentication failed: "@
                + reason,
            Exchange::Lookup => r matches Err(ClientError::Handshake(m)) && m@ == "Lookup failed: "@ + reason,
            Exchange::StartChat => r matches Err(ClientError::Handshake(m)) && m@ == "Start chat failed: "@
                + reason,
        },
{
    let s = ResponseView::Success { user_id: id };
    let l = ResponseView::LookupResult { user_id: id };
    let f = ResponseView::Failure { reason };
    lemma_response_roundtrip(s, Seq::empty());
    assert(response_bytes(s) + Seq::<u8>::empty() =~= response_bytes(s));
    lemma_response_roundtrip(l, Seq::empty());
    assert(response_bytes(l) + Seq::<u8>::empty() =~= response_bytes(l));
    if response_strings_fit(f) {
        lemma_response_roundtrip(f, Seq::empty());
        assert(response_bytes(f) + Seq::<u8>::empty() =~= response_bytes(f));
    }
}

} // verus!
