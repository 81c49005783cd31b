//! The messages of the chat protocol and their wire format.
//!
//! Requests and responses of the handshake are written as bincode writes an
//! enum: the variant's index as a big-endian `u32`, then its fields in order.
//! A chat message has a fixed 16-byte header (recipient id, then sender id,
//! both big-endian `u64`) followed by its content as a string frame.

use vstd::prelude::*;
use vstd::utf8::*;
use vstd::slice::slice_subrange;
use crate::wire::{
    u32_be_bytes, u32_from_be, u64_be_bytes, u64_from_be, string_frame, parse_string_frame,
    encode_string, decode_string, u32_to_be, u32_read_be, u64_to_be, u64_read_be,
    truncated_input_error, lemma_string_frame_roundtrip, lemma_u32_be_roundtrip,
    lemma_u64_be_roundtrip, lemma_u32_be_bytes_of_value, lemma_u64_be_bytes_of_value,
    lemma_string_frame_unique, lemma_u32_be_digits,
};
use crate::error::{ChatError, ChatResult};
use bincode::error::DecodeError;

verus! {

/// A request of the handshake, sent by a client before it starts chatting.
#[derive(Debug)]
pub enum AuthRequest {
    Register { username: String, password: String },
    Login { username: String, password: String },
    Lookup { username: String },
    StartChat,
}

/// The mathematical value of an [`AuthRequest`].
pub enum RequestView {
    Register { username: Seq<char>, password: Seq<char> },
    Login { username: Seq<char>, password: Seq<char> },
    Lookup { username: Seq<char> },
    StartChat,
}

impl View for AuthRequest {
    type V = RequestView;

    open spec fn view(&self) -> RequestView {
        match self {
            AuthRequest::Register { username, password } => RequestView::Register {
                username: username@,
                password: password@,
            },
            AuthRequest::Login { username, password } => RequestView::Login {
                username: username@,
                password: password@,
            },
            AuthRequest::Lookup { username } => RequestView::Lookup { username: username@ },
            AuthRequest::StartChat => RequestView::StartChat,
        }
    }
}

/// The server's answer to an [`AuthRequest`].
#[derive(Debug)]
pub enum AuthResponse {
    Success { user_id: u64 },
    Failure { reason: String },
    LookupResult { user_id: u64 },
}

/// The mathematical value of an [`AuthResponse`].
pub enum ResponseView {
    Success { user_id: u64 },
    Failure { reason: Seq<char> },
    LookupResult { user_id: u64 },
}

impl View for AuthResponse {
    type V = ResponseView;

    open spec fn view(&self) -> ResponseView {
        match self {
            AuthResponse::Success { user_id } => ResponseView::Success { user_id: *user_id },
            AuthResponse::Failure { reason } => ResponseView::Failure { reason: reason@ },
            AuthResponse::LookupResult { user_id } => ResponseView::LookupResult { user_id: *user_id },
        }
    }
}

/// The bytes of a request on the wire.
pub open spec fn request_bytes(r: RequestView) -> Seq<u8> {
    match r {
        RequestView::Register { username, password } => u32_be_bytes(0) + string_frame(username)
            + string_frame(password),
        RequestView::Login { username, password } => u32_be_bytes(1) + string_frame(username)
            + string_frame(password),
        RequestView::Lookup { username } => u32_be_bytes(2) + string_frame(username),
        RequestView::StartChat => u32_be_bytes(3),
    }
}

/// Two string frames one after the other at the start of `b`.
pub open spec fn parse_two_strings(b: Seq<u8>) -> Option<(Seq<char>, Seq<char>)> {
    match parse_string_frame(b) {
        Some((first, n)) => match parse_string_frame(b.skip(n)) {
            Some((second, _)) => Some((first, second)),
            None => None,
        },
        None => None,
    }
}

/// The request that `b` starts with, if any; bytes after it are ignored.
pub open spec fn parse_request(b: Seq<u8>) -> Option<RequestView> {
    if b.len() < 4 {
        None
    } else {
        let tag = u32_from_be(b);
        let rest = b.skip(4);
        if tag == 0 {
            match parse_two_strings(rest) {
                Some((u, p)) => Some(RequestView::Register { username: u, password: p }),
                None => None,
            }
        } else if tag == 1 {
            match parse_two_strings(rest) {
                Some((u, p)) => Some(RequestView::Login { username: u, password: p }),
                None => None,
            }
        } else if tag == 2 {
            match parse_string_frame(rest) {
                Some((u, _)) => Some(RequestView::Lookup { username: u }),
                None => None,
            }
        } else if tag == 3 {
            Some(RequestView::StartChat)
        } else {
            None
        }
    }
}

/// The bytes of a response on the wire.
pub open spec fn response_bytes(r: ResponseView) -> Seq<u8> {
    match r {
        ResponseView::Success { user_id } => u32_be_bytes(0) + u64_be_bytes(user_id),
        ResponseView::Failure { reason } => u32_be_bytes(1) + string_frame(reason),
        ResponseView::LookupResult { user_id } => u32_be_bytes(2) + u64_be_bytes(user_id),
    }
}

/// The response that `b` starts with, if any; bytes after it are ignored.
pub open spec fn parse_response(b: Seq<u8>) -> Option<ResponseView> {
    if b.len() < 4 {
        None
    } else {
        let tag = u32_from_be(b);
        let rest = b.skip(4);
        if tag == 0 {
            if rest.len() < 8 {
                None
            } else {
                Some(ResponseView::Success { user_id: u64_from_be(rest) })
            }
        } else if tag == 1 {
            match parse_string_frame(rest) {
                Some((r, _)) => Some(ResponseView::Failure { reason: r }),
                None => None,
            }
        } else if tag == 2 {
            if rest.len() < 8 {
                None
            } else {
                Some(ResponseView::LookupResult { user_id: u64_from_be(rest) })
            }
        } else {
            None
        }
    }
}

/// The UTF-8 text of every string in a request fits the `u64` length of its frame.
pub open spec fn request_strings_fit(r: RequestView) -> bool {
    match r {
        RequestView::Register { username, password } => encode_utf8(username).len() <= u64::MAX
            && encode_utf8(password).len() <= u64::MAX,
        RequestView::Login { username, password } => encode_utf8(username).len() <= u64::MAX
            && encode_utf8(password).len() <= u64::MAX,
        RequestView::Lookup { username } => encode_utf8(username).len() <= u64::MAX,
        RequestView::StartChat => true,
    }
}

/// The UTF-8 text of the string in a response fits the `u64` length of its frame.
pub open spec fn response_strings_fit(r: ResponseView) -> bool {
    match r {
        ResponseView::Failure { reason } => encode_utf8(reason).len() <= u64::MAX,
        _ => true,
    }
}

/// bincode's catch-all decoding error `DecodeError::Other` with the text
/// `text`.
pub uninterp spec fn other_decode_error(text: Seq<char>) -> DecodeError;

/// `bincode::error::DecodeError::Other`: bincode's catch-all decoding error
/// with the given text; it stands for an unknown variant index. The error is
/// named, not stated.
#[verifier::external_body]
fn unknown_variant_error(text: &'static str) -> (r: DecodeError)
    ensures
        r == other_decode_error(text@),
{
    DecodeError::Other(text)
}

fn decode_failure(e: DecodeError) -> (r: ChatError)
    ensures
        r == ChatError::Decode(e),
{
    ChatError::from(e)
}

fn read_u32_be(b: &[u8]) -> (x: u32)
    requires
        b@.len() >= 4,
    ensures
        x == u32_from_be(b@),
{
    u32_read_be([b[0], b[1], b[2], b[3]])
}

fn read_u64_be(b: &[u8]) -> (x: u64)
    requires
        b@.len() >= 8,
    ensures
        x == u64_from_be(b@),
{
    u64_read_be([b[0], b[1], b[2], b[3], b[4], b[5], b[6], b[7]])
}

fn decode_two_strings(b: &[u8]) -> (r: Result<(String, String), ChatError>)
    ensures
        match r {
            Ok((x, y)) => parse_two_strings(b@) == Some((x@, y@)),
            Err(e) => parse_two_strings(b@) is None && e is Decode,
        },
{
    match decode_string(b) {
        Ok((first, n)) => {
            let rest = slice_subrange(b, n, b.len());
            assert(rest@ =~= b@.skip(n as int));
            match decode_string(rest) {
                Ok((second, _)) => Ok((first, second)),
                Err(e) => Err(decode_failure(e)),
            }
        },
        Err(e) => Err(decode_failure(e)),
    }
}

impl AuthRequest {
    /// The request's bytes on the wire.
    pub fn encode(&self) -> (r: ChatResult<Vec<u8>>)
        ensures
            r matches Ok(b) && b@ == request_bytes(self@),
    {
        let mut out: Vec<u8> = Vec::new();
        match self {
            AuthRequest::Register { username, password } => {
                out.extend_from_slice(u32_to_be(0).as_slice());
                let u = encode_string(username);
                let p = encode_string(password);
                match (u, p) {
                    (Ok(u), Ok(p)) => {
                        out.extend_from_slice(u.as_slice());
                        out.extend_from_slice(p.as_slice());
                    },
                    _ => {},
                }
            },
            AuthRequest::Login { username, password } => {
                out.extend_from_slice(u32_to_be(1).as_slice());
                let u = encode_string(username);
                let p = encode_string(password);
                match (u, p) {
                    (Ok(u), Ok(p)) => {
                        out.extend_from_slice(u.as_slice());
                        out.extend_from_slice(p.as_slice());
                    },
                    _ => {},
                }
            },
            AuthRequest::Lookup { username } => {
                out.extend_from_slice(u32_to_be(2).as_slice());
                match encode_string(username) {
                    Ok(u) => out.extend_from_slice(u.as_slice()),
                    _ => {},
                }
            },
            AuthRequest::StartChat => {
                out.extend_from_slice(u32_to_be(3).as_slice());
            },
        }
        assert(out@ =~= request_bytes(self@));
        Ok(out)
    }

    /// The request that `bytes` starts with; bytes after it are ignored.
    pub fn decode(bytes: &[u8]) -> (r: ChatResult<AuthRequest>)
        ensures
            match r {
                Ok(req) => parse_request(bytes@) == Some(req@),
                Err(e) => parse_request(bytes@) is None && e is Decode,
            },
            bytes@.len() >= 4 && u32_from_be(bytes@) > 3 ==> r == Err::<AuthRequest, ChatError>(
                ChatError::Decode(other_decode_error("unexpected variant index of AuthRequest"@)),
            ),
    {
        if bytes.len() < 4 {
            return Err(decode_failure(truncated_input_error(4 - bytes.len())));
        }
        let tag = read_u32_be(bytes);
        let rest = slice_subrange(bytes, 4, bytes.len());
        assert(rest@ =~= bytes@.skip(4));
        if tag == 0 {
            match decode_two_strings(rest) {
                Ok((username, password)) => Ok(AuthRequest::Register { username, password }),
                Err(e) => Err(e),
            }
        } else if tag == 1 {
            match decode_two_strings(rest) {
                Ok((username, password)) => Ok(AuthRequest::Login { username, password }),
                Err(e) => Err(e),
            }
        } else if tag == 2 {
            match decode_string(rest) {
                Ok((username, _)) => Ok(AuthRequest::Lookup { username }),
                Err(e) => Err(decode_failure(e)),
            }
        } else if tag == 3 {
            Ok(AuthRequest::StartChat)
        } else {
            Err(decode_failure(unknown_variant_error("unexpected variant index of AuthRequest")))
        }
    }
}

impl AuthResponse {
    /// The response's bytes on the wire.
    pub fn encode(&self) -> (r: ChatResult<Vec<u8>>)
        ensures
            r matches Ok(b) && b@ == response_bytes(self@),
    {
        let mut out: Vec<u8> = Vec::new();
        match self {
            AuthResponse::Success { user_id } => {
                out.extend_from_slice(u32_to_be(0).as_slice());
                out.extend_from_slice(u64_to_be(*user_id).as_slice());
            },
            AuthResponse::Failure { reason } => {
                out.extend_from_slice(u32_to_be(1).as_slice());
                match encode_string(reason) {
                    Ok(r) => out.extend_from_slice(r.as_slice()),
                    _ => {},
                }
            },
            AuthResponse::LookupResult { user_id } => {
                out.extend_from_slice(u32_to_be(2).as_slice());
                out.extend_from_slice(u64_to_be(*user_id).as_slice());
            },
        }
        assert(out@ =~= response_bytes(self@));
        Ok(out)
    }

    /// The response that `bytes` starts with; bytes after it are ignored.
    pub fn decode(bytes: &[u8]) -> (r: ChatResult<AuthResponse>)
        ensures
            match r {
                Ok(resp) => parse_response(bytes@) == Some(resp@),
                Err(e) => parse_response(bytes@) is None && e is Decode,
            },
            bytes@.len() >= 4 && u32_from_be(bytes@) > 2 ==> r == Err::<AuthResponse, ChatError>(
                ChatError::Decode(other_decode_error("unexpected variant index of AuthResponse"@)),
            ),
    {
        if bytes.len() < 4 {
            return Err(decode_failure(truncated_input_error(4 - bytes.len())));
        }
        let tag = read_u32_be(bytes);
        let rest = slice_subrange(bytes, 4, bytes.len());
        assert(rest@ =~= bytes@.skip(4));
        if tag == 0 || tag == 2 {
            if rest.len() < 8 {
                return Err(decode_failure(truncated_input_error(8 - rest.len())));
            }
            let user_id = read_u64_be(rest);
            if tag == 0 {
                Ok(AuthResponse::Success { user_id })
            } else {
                Ok(AuthResponse::LookupResult { user_id })
            }
        } else if tag == 1 {
            match decode_string(rest) {
                Ok((reason, _)) => Ok(AuthResponse::Failure { reason }),
                Err(e) => Err(decode_failure(e)),
            }
        } else {
            Err(decode_failure(unknown_variant_error("unexpected variant index of AuthResponse")))
        }
    }
}

/// A chat message from one user to another.
#[derive(Debug)]
pub struct ClientMessage {
    recipient_id: u64,
    sender_id: u64,
    content: String,
}

/// The mathematical value of a [`ClientMessage`].
pub struct MessageView {
    pub recipient_id: u64,
    pub sender_id: u64,
    pub content: Seq<char>,
}

impl View for ClientMessage {
    type V = MessageView;

    closed spec fn view(&self) -> MessageView {
        MessageView {
            recipient_id: self.recipient_id,
            sender_id: self.sender_id,
            content: self.content@,
        }
    }
}

/// The bytes of a chat message on the wire: the 16-byte header, then the
/// content as a string frame.
pub open spec fn message_bytes(m: MessageView) -> Seq<u8> {
    u64_be_bytes(m.recipient_id) + u64_be_bytes(m.sender_id) + string_frame(m.content)
}

/// The chat message that `b` starts with, if its header is complete and a
/// string frame follows it; bytes after the frame are ignored.
pub open spec fn parse_message(b: Seq<u8>) -> Option<MessageView> {
    if b.len() < 16 {
        None
    } else {
        match parse_string_frame(b.skip(16)) {
            Some((content, _)) => Some(
                MessageView {
                    recipient_id: u64_from_be(b),
                    sender_id: u64_from_be(b.skip(8)),
                    content,
                },
            ),
            None => None,
        }
    }
}

fn protocol_error(text: &str) -> (r: ChatError)
    ensures
        r matches ChatError::Protocol(m) && m@ == text@,
{
    ChatError::Protocol(String::from_str(text))
}

impl ClientMessage {
    /// A message from `sender_id` to `recipient_id`.
    pub fn new(sender_id: u64, recipient_id: u64, content: String) -> (r: ClientMessage)
        ensures
            r@ == (MessageView { recipient_id, sender_id, content: content@ }),
    {
        ClientMessage { recipient_id, sender_id, content }
    }

    pub fn get_sender_id(&self) -> (r: u64)
        ensures
            r == self@.sender_id,
    {
        self.sender_id
    }

    pub fn get_recipient_id(&self) -> (r: u64)
        ensures
            r == self@.recipient_id,
    {
        self.recipient_id
    }

    pub fn get_content(&self) -> (r: &str)
        ensures
            r@ == self@.content,
    {
        self.content.as_str()
    }

    /// The message's bytes on the wire: recipient id and sender id as
    /// big-endian `u64`, then the content as a string frame.
    pub fn encode(&self) -> (r: ChatResult<Vec<u8>>)
        ensures
            r matches Ok(b) && b@ == message_bytes(self@),
    {
        let mut bytes: Vec<u8> = Vec::new();
        bytes.extend_from_slice(u64_to_be(self.recipient_id).as_slice());
        bytes.extend_from_slice(u64_to_be(self.sender_id).as_slice());
        match encode_string(&self.content) {
            Ok(c) => bytes.extend_from_slice(c.as_slice()),
            _ => {},
        }
        assert(bytes@ =~= message_bytes(self@));
        Ok(bytes)
    }

    /// The message that `bytes` starts with. Fewer than 16 bytes are a
    /// protocol error; a header not followed by a string frame is a decoding
    /// error.
    pub fn decode(bytes: &[u8]) -> (r: ChatResult<ClientMessage>)
        ensures
            bytes@.len() < 16 ==> (r matches Err(ChatError::Protocol(m))
                && m@ == "Message too short for header"@),
            bytes@.len() >= 16 ==> match r {
                Ok(msg) => parse_message(bytes@) == Some(msg@),
                Err(e) => parse_message(bytes@) is None && e is Decode,
            },
    {
        if bytes.len() < 16 {
            return Err(protocol_error("Message too short for header"));
        }
        let recipient_id = read_u64_be(bytes);
        let tail = slice_subrange(bytes, 8, bytes.len());
        let sender_id = read_u64_be(tail);
        let body = slice_subrange(bytes, 16, bytes.len());
        assert(tail@ =~= bytes@.skip(8));
        assert(body@ =~= bytes@.skip(16));
        match decode_string(body) {
            Ok((content, _)) => Ok(ClientMessage { recipient_id, sender_id, content }),
            Err(e) => Err(decode_failure(e)),
        }
    }

    /// Reads only the recipient id from the header.
    pub fn decode_recipient_id(bytes: &[u8]) -> (r: ChatResult<u64>)
        ensures
            bytes@.len() < 8 ==> (r matches Err(ChatError::Protocol(m))
                && m@ == "Buffer too short for recipient_id"@),
            bytes@.len() >= 8 ==> r == Ok::<u64, ChatError>(u64_from_be(bytes@)),
    {
        if bytes.len() < 8 {
            return Err(protocol_error("Buffer too short for recipient_id"));
        }
        Ok(read_u64_be(bytes))
    }
}

/// A chat message written to the wire reads back as the same message,
/// whatever bytes follow it, and its recipient can be read from the header
/// alone.
pub proof fn lemma_message_roundtrip(m: MessageView, rest: Seq<u8>)
    requires
        encode_utf8(m.content).len() <= u64::MAX,
    ensures
        parse_message(message_bytes(m) + rest) == Some(m),
        u64_from_be(message_bytes(m) + rest) == m.recipient_id,
        (message_bytes(m) + rest).len() >= 16,
{
    let b = message_bytes(m) + rest;
    lemma_u64_be_roundtrip(m.recipient_id);
    lemma_u64_be_roundtrip(m.sender_id);
    assert(b.skip(8).take(8) =~= u64_be_bytes(m.sender_id));
    assert(b.skip(16) =~= string_frame(m.content) + rest);
    lemma_string_frame_roundtrip(m.content, rest);
}

/// A request written to the wire reads back as the same request, whatever
/// bytes follow it.
pub proof fn lemma_request_roundtrip(r: RequestView, rest: Seq<u8>)
    requires
        request_strings_fit(r),
    ensures
        parse_request(request_bytes(r) + rest) == Some(r),
{
    let b = request_bytes(r) + rest;
    match r {
        RequestView::Register { username, password } => {
            lemma_u32_be_roundtrip(0);
            assert(b.skip(4) =~= string_frame(username) + (string_frame(password) + rest));
            lemma_string_frame_roundtrip(username, string_frame(password) + rest);
            let n = string_frame(username).len() as int;
            assert(b.skip(4).skip(n) =~= string_frame(password) + rest);
            lemma_string_frame_roundtrip(password, rest);
        },
        RequestView::Login { username, password } => {
            lemma_u32_be_roundtrip(1);
            assert(b.skip(4) =~= string_frame(username) + (string_frame(password) + rest));
            lemma_string_frame_roundtrip(username, string_frame(password) + rest);
            let n = string_frame(username).len() as int;
            assert(b.skip(4).skip(n) =~= string_frame(password) + rest);
            lemma_string_frame_roundtrip(password, rest);
        },
        RequestView::Lookup { username } => {
            lemma_u32_be_roundtrip(2);
            assert(b.skip(4) =~= string_frame(username) + rest);
            lemma_string_frame_roundtrip(username, rest);
        },
        RequestView::StartChat => {
            lemma_u32_be_roundtrip(3);
        },
    }
}

/// A response written to the wire reads back as the same response, whatever
/// bytes follow it.
pub proof fn lemma_response_roundtrip(r: ResponseView, rest: Seq<u8>)
    requires
        response_strings_fit(r),
    ensures
        parse_response(response_bytes(r) + rest) == Some(r),
{
    let b = response_bytes(r) + rest;
    match r {
        ResponseView::Success { user_id } => {
            lemma_u32_be_roundtrip(0);
            lemma_u64_be_roundtrip(user_id);
            assert(b.skip(4).take(8) =~= u64_be_bytes(user_id));
        },
        ResponseView::Failure { reason } => {
            lemma_u32_be_roundtrip(1);
            assert(b.skip(4) =~= string_frame(reason) + rest);
            lemma_string_frame_roundtrip(reason, rest);
        },
        ResponseView::LookupResult { user_id } => {
            lemma_u32_be_roundtrip(2);
            lemma_u64_be_roundtrip(user_id);
            assert(b.skip(4).take(8) =~= u64_be_bytes(user_id));
        },
    }
}

/// `encoded` is `b`'s first bytes.
pub open spec fn is_prefix(encoded: Seq<u8>, b: Seq<u8>) -> bool {
    encoded.len() <= b.len() && b.take(encoded.len() as int) == encoded
}

/// Two string frames read at the start of `b` are exactly its first bytes.
proof fn lemma_two_strings_unique(b: Seq<u8>)
    ensures
        parse_two_strings(b) matches Some((x, y)) ==> is_prefix(string_frame(x) + string_frame(y), b),
{
    if let Some((x, y)) = parse_two_strings(b) {
        lemma_string_frame_unique(b);
        let n = parse_string_frame(b).unwrap().1;
        lemma_string_frame_unique(b.skip(n));
        let m = parse_string_frame(b.skip(n)).unwrap().1;
        assert(string_frame(x) + string_frame(y) =~= b.take(n + m));
    }
}

/// A request read from `b` is exactly `b`'s first bytes: no two byte
/// strings are read as the same request, bar what follows it.
pub proof fn lemma_request_unique(b: Seq<u8>)
    ensures
        parse_request(b) matches Some(r) ==> is_prefix(request_bytes(r), b),
{
    if let Some(r) = parse_request(b) {
        lemma_u32_be_bytes_of_value(b);
        let rest = b.skip(4);
        match r {
            RequestView::Register { username, password } => {
                lemma_two_strings_unique(rest);
                assert(request_bytes(r) =~= u32_be_bytes(0) + (string_frame(username) + string_frame(password)));
                assert(b.take(request_bytes(r).len() as int) =~= b.take(4) + rest.take(
                    (string_frame(username) + string_frame(password)).len() as int,
                ));
            },
            RequestView::Login { username, password } => {
                lemma_two_strings_unique(rest);
                assert(request_bytes(r) =~= u32_be_bytes(1) + (string_frame(username) + string_frame(password)));
                assert(b.take(request_bytes(r).len() as int) =~= b.take(4) + rest.take(
                    (string_frame(username) + string_frame(password)).len() as int,
                ));
            },
            RequestView::Lookup { username } => {
                lemma_string_frame_unique(rest);
                assert(b.take(request_bytes(r).len() as int) =~= b.take(4) + rest.take(
                    string_frame(username).len() as int,
                ));
            },
            RequestView::StartChat => {},
        }
    }
}

/// A response read from `b` is exactly `b`'s first bytes.
pub proof fn lemma_response_unique(b: Seq<u8>)
    ensures
        parse_response(b) matches Some(r) ==> is_prefix(response_bytes(r), b),
{
    if let Some(r) = parse_response(b) {
        lemma_u32_be_bytes_of_value(b);
        let rest = b.skip(4);
        match r {
            ResponseView::Failure { reason } => {
                lemma_string_frame_unique(rest);
                assert(b.take(response_bytes(r).len() as int) =~= b.take(4) + rest.take(
                    string_frame(reason).len() as int,
                ));
            },
            _ => {
                lemma_u64_be_bytes_of_value(rest);
                assert(b.take(12) =~= b.take(4) + rest.take(8));
            },
        }
    }
}

/// A chat message read from `b` is exactly `b`'s first bytes.
pub proof fn lemma_message_unique(b: Seq<u8>)
    ensures
        parse_message(b) matches Some(m) ==> is_prefix(message_bytes(m), b),
{
    if let Some(m) = parse_message(b) {
        lemma_u64_be_bytes_of_value(b);
        lemma_u64_be_bytes_of_value(b.skip(8));
        lemma_string_frame_unique(b.skip(16));
        assert(b.take(message_bytes(m).len() as int) =~= b.take(8) + b.skip(8).take(8) + b.skip(16).take(
            string_frame(m.content).len() as int,
        ));
    }
}

/// Each request starts with its variant's index in declaration order as
/// four big-endian bytes (register 0, login 1, lookup 2, start chat 3),
/// followed by its fields in declaration order, each string as a string
/// frame: the user name first, then the password.
pub proof fn lemma_request_layout(username: Seq<char>, password: Seq<char>)
    ensures
        request_bytes(RequestView::Register { username, password }) == seq![0u8, 0, 0, 0] + string_frame(username)
            + string_frame(password),
        request_bytes(RequestView::Login { username, password }) == seq![0u8, 0, 0, 1] + string_frame(username)
            + string_frame(password),
        request_bytes(RequestView::Lookup { username }) == seq![0u8, 0, 0, 2] + string_frame(username),
        request_bytes(RequestView::StartChat) == seq![0u8, 0, 0, 3],
        request_bytes(RequestView::Login { username, password }).skip(4) == request_bytes(
            RequestView::Register { username, password },
        ).skip(4),
{
    lemma_u32_be_digits(0);
    lemma_u32_be_digits(1);
    lemma_u32_be_digits(2);
    lemma_u32_be_digits(3);
    assert(u32_be_bytes(0) =~= seq![0u8, 0, 0, 0]);
    assert(u32_be_bytes(1) =~= seq![0u8, 0, 0, 1]);
    assert(u32_be_bytes(2) =~= seq![0u8, 0, 0, 2]);
    assert(u32_be_bytes(3) =~= seq![0u8, 0, 0, 3]);
    assert(request_bytes(RequestView::Login { username, password }).skip(4) =~= string_frame(username)
        + string_frame(password));
    assert(request_bytes(RequestView::Register { username, password }).skip(4) =~= string_frame(username)
        + string_frame(password));
}

/// Each response starts with its variant's index in declaration order as
/// four big-endian bytes (success 0, failure 1, lookup result 2), followed
/// by its field: an id as eight big-endian bytes, a reason as a string frame.
pub proof fn lemma_response_layout(user_id: u64, reason: Seq<char>)
    ensures
        response_bytes(ResponseView::Success { user_id }) == seq![0u8, 0, 0, 0] + u64_be_bytes(user_id),
        response_bytes(ResponseView::Failure { reason }) == seq![0u8, 0, 0, 1] + string_frame(reason),
        response_bytes(ResponseView::LookupResult { user_id }) == seq![0u8, 0, 0, 2] + u64_be_bytes(user_id),
        u64_from_be(response_bytes(ResponseView::Success { user_id }).skip(4)) == user_id,
        u64_from_be(response_bytes(ResponseView::LookupResult { user_id }).skip(4)) == user_id,
{
    lemma_u32_be_digits(0);
    lemma_u32_be_digits(1);
    lemma_u32_be_digits(2);
    assert(u32_be_bytes(0) =~= seq![0u8, 0, 0, 0]);
    assert(u32_be_bytes(1) =~= seq![0u8, 0, 0, 1]);
    assert(u32_be_bytes(2) =~= seq![0u8, 0, 0, 2]);
    lemma_u64_be_roundtrip(user_id);
    assert(response_bytes(ResponseView::Success { user_id }).skip(4) =~= u64_be_bytes(user_id));
    assert(response_bytes(ResponseView::LookupResult { user_id }).skip(4) =~= u64_be_bytes(user_id));
}

/// A chat message is its recipient's id, then its sender's id, each as
/// eight big-endian bytes, then its content as a string frame.
pub proof fn lemma_message_layout(m: MessageView)
    ensures
        message_bytes(m).len() >= 16,
        u64_from_be(message_bytes(m)) == m.recipient_id,
        u64_from_be(message_bytes(m).skip(8)) == m.sender_id,
        message_bytes(m).skip(16) == string_frame(m.content),
{
    lemma_u64_be_roundtrip(m.recipient_id);
    lemma_u64_be_roundtrip(m.sender_id);
    let b = message_bytes(m);
    assert(b.skip(8).take(8) =~= u64_be_bytes(m.sender_id));
    assert(u64_from_be(b.skip(8)) == u64_from_be(u64_be_bytes(m.sender_id)));
    assert(b.skip(16) =~= string_frame(m.content));
}

} // verus!
