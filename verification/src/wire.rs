//! Byte-level building blocks of the wire format: big-endian integers and
//! length-prefixed UTF-8 strings as written by bincode with the project's
//! configuration (big endian, fixed-width integers).

use vstd::prelude::*;
use vstd::utf8::*;
use bincode::error::{DecodeError, EncodeError};

verus! {

#[verifier::external_type_specification]
#[verifier::external_body]
pub struct ExEncodeError(EncodeError);

#[verifier::external_type_specification]
#[verifier::external_body]
pub struct ExDecodeError(DecodeError);

/// The eight big-endian bytes of `x`.
pub open spec fn u64_be_bytes(x: u64) -> Seq<u8> {
    seq![
        (x >> 56u64) as u8,
        (x >> 48u64) as u8,
        (x >> 40u64) as u8,
        (x >> 32u64) as u8,
        (x >> 24u64) as u8,
        (x >> 16u64) as u8,
        (x >> 8u64) as u8,
        x as u8,
    ]
}

/// The value of the first eight bytes of `b`, read as a big-endian integer.
pub open spec fn u64_from_be(b: Seq<u8>) -> u64 {
    (b[0] as u64) << 56u64 | (b[1] as u64) << 48u64 | (b[2] as u64) << 40u64 | (b[3] as u64) << 32u64
        | (b[4] as u64) << 24u64 | (b[5] as u64) << 16u64 | (b[6] as u64) << 8u64 | (b[7] as u64)
}

/// The four big-endian bytes of `x`.
pub open spec fn u32_be_bytes(x: u32) -> Seq<u8> {
    seq![(x >> 24u32) as u8, (x >> 16u32) as u8, (x >> 8u32) as u8, x as u8]
}

/// The value of the first four bytes of `b`, read as a big-endian integer.
pub open spec fn u32_from_be(b: Seq<u8>) -> u32 {
    (b[0] as u32) << 24u32 | (b[1] as u32) << 16u32 | (b[2] as u32) << 8u32 | (b[3] as u32)
}

pub proof fn lemma_u64_be_roundtrip(x: u64)
    ensures
        u64_from_be(u64_be_bytes(x)) == x,
        u64_be_bytes(x).len() == 8,
{
    let b = u64_be_bytes(x);
    let (b0, b1, b2, b3, b4, b5, b6, b7) = (b[0], b[1], b[2], b[3], b[4], b[5], b[6], b[7]);
    assert(b0 == (x >> 56u64) as u8 && b1 == (x >> 48u64) as u8 && b2 == (x >> 40u64) as u8
        && b3 == (x >> 32u64) as u8 && b4 == (x >> 24u64) as u8 && b5 == (x >> 16u64) as u8
        && b6 == (x >> 8u64) as u8 && b7 == x as u8);
    assert(
        (b0 == (x >> 56u64) as u8 && b1 == (x >> 48u64) as u8 && b2 == (x >> 40u64) as u8
        && b3 == (x >> 32u64) as u8 && b4 == (x >> 24u64) as u8 && b5 == (x >> 16u64) as u8
        && b6 == (x >> 8u64) as u8 && b7 == x as u8) ==>
        ((b0 as u64) << 56u64 | (b1 as u64) << 48u64 | (b2 as u64) << 40u64 | (b3 as u64) << 32u64
        | (b4 as u64) << 24u64 | (b5 as u64) << 16u64 | (b6 as u64) << 8u64 | (b7 as u64)) == x
    ) by (bit_vector);
}

pub proof fn lemma_u32_be_roundtrip(x: u32)
    ensures
        u32_from_be(u32_be_bytes(x)) == x,
        u32_be_bytes(x).len() == 4,
{
    let b = u32_be_bytes(x);
    let (b0, b1, b2, b3) = (b[0], b[1], b[2], b[3]);
    assert(b0 == (x >> 24u32) as u8 && b1 == (x >> 16u32) as u8 && b2 == (x >> 8u32) as u8 && b3 == x as u8);
    assert(
        (b0 == (x >> 24u32) as u8 && b1 == (x >> 16u32) as u8 && b2 == (x >> 8u32) as u8 && b3 == x as u8) ==>
        ((b0 as u32) << 24u32 | (b1 as u32) << 16u32 | (b2 as u32) << 8u32 | (b3 as u32)) == x
    ) by (bit_vector);
}

/// Eight bytes read as a big-endian integer and written back are the same
/// bytes.
pub proof fn lemma_u64_be_bytes_of_value(b: Seq<u8>)
    requires
        b.len() >= 8,
    ensures
        u64_be_bytes(u64_from_be(b)) == b.take(8),
{
    let (b0, b1, b2, b3, b4, b5, b6, b7) = (b[0], b[1], b[2], b[3], b[4], b[5], b[6], b[7]);
    let x = u64_from_be(b);
    assert(x == ((b0 as u64) << 56u64 | (b1 as u64) << 48u64 | (b2 as u64) << 40u64 | (b3 as u64) << 32u64
        | (b4 as u64) << 24u64 | (b5 as u64) << 16u64 | (b6 as u64) << 8u64 | (b7 as u64)));
    assert(x == ((b0 as u64) << 56u64 | (b1 as u64) << 48u64 | (b2 as u64) << 40u64 | (b3 as u64) << 32u64
        | (b4 as u64) << 24u64 | (b5 as u64) << 16u64 | (b6 as u64) << 8u64 | (b7 as u64)) ==> (
        (x >> 56u64) as u8 == b0 && (x >> 48u64) as u8 == b1 && (x >> 40u64) as u8 == b2
        && (x >> 32u64) as u8 == b3 && (x >> 24u64) as u8 == b4 && (x >> 16u64) as u8 == b5
        && (x >> 8u64) as u8 == b6 && x as u8 == b7)) by (bit_vector);
    assert(u64_be_bytes(x) =~= b.take(8));
}

/// Four bytes read as a big-endian integer and written back are the same
/// bytes.
pub proof fn lemma_u32_be_bytes_of_value(b: Seq<u8>)
    requires
        b.len() >= 4,
    ensures
        u32_be_bytes(u32_from_be(b)) == b.take(4),
{
    let (b0, b1, b2, b3) = (b[0], b[1], b[2], b[3]);
    let x = u32_from_be(b);
    assert(x == ((b0 as u32) << 24u32 | (b1 as u32) << 16u32 | (b2 as u32) << 8u32 | (b3 as u32)));
    assert(x == ((b0 as u32) << 24u32 | (b1 as u32) << 16u32 | (b2 as u32) << 8u32 | (b3 as u32)) ==> (
        (x >> 24u32) as u8 == b0 && (x >> 16u32) as u8 == b1 && (x >> 8u32) as u8 == b2 && x as u8 == b3))
        by (bit_vector);
    assert(u32_be_bytes(x) =~= b.take(4));
}

/// `u64::to_be_bytes`: the big-endian bytes of `x`.
#[verifier::external_body]
pub(crate) fn u64_to_be(x: u64) -> (b: [u8; 8])
    ensures
        b@ == u64_be_bytes(x),
{
    x.to_be_bytes()
}

/// `u64::from_be_bytes`: the integer whose big-endian bytes are `b`.
#[verifier::external_body]
pub(crate) fn u64_read_be(b: [u8; 8]) -> (x: u64)
    ensures
        x == u64_from_be(b@),
{
    u64::from_be_bytes(b)
}

/// `u32::to_be_bytes`: the big-endian bytes of `x`.
#[verifier::external_body]
pub(crate) fn u32_to_be(x: u32) -> (b: [u8; 4])
    ensures
        b@ == u32_be_bytes(x),
{
    x.to_be_bytes()
}

/// `u32::from_be_bytes`: the integer whose big-endian bytes are `b`.
#[verifier::external_body]
pub(crate) fn u32_read_be(b: [u8; 4]) -> (x: u32)
    ensures
        x == u32_from_be(b@),
{
    u32::from_be_bytes(b)
}

/// The bytes of `x` are its base-256 digits, most significant first.
pub proof fn lemma_u64_be_digits(x: u64)
    ensures
        u64_be_bytes(x).len() == 8,
        u64_be_bytes(x)[0] == x / 0x100_0000_0000_0000,
        u64_be_bytes(x)[1] == (x / 0x1_0000_0000_0000) % 256,
        u64_be_bytes(x)[2] == (x / 0x100_0000_0000) % 256,
        u64_be_bytes(x)[3] == (x / 0x1_0000_0000) % 256,
        u64_be_bytes(x)[4] == (x / 0x100_0000) % 256,
        u64_be_bytes(x)[5] == (x / 0x1_0000) % 256,
        u64_be_bytes(x)[6] == (x / 0x100) % 256,
        u64_be_bytes(x)[7] == x % 256,
{
    assert(((x >> 56u64) as u8) as u64 == x / 0x100_0000_0000_0000
        && ((x >> 48u64) as u8) as u64 == (x / 0x1_0000_0000_0000) % 256
        && ((x >> 40u64) as u8) as u64 == (x / 0x100_0000_0000) % 256
        && ((x >> 32u64) as u8) as u64 == (x / 0x1_0000_0000) % 256
        && ((x >> 24u64) as u8) as u64 == (x / 0x100_0000) % 256
        && ((x >> 16u64) as u8) as u64 == (x / 0x1_0000) % 256
        && ((x >> 8u64) as u8) as u64 == (x / 0x100) % 256
        && (x as u8) as u64 == x % 256) by (bit_vector);
}

/// The bytes of `x` are its base-256 digits, most significant first.
pub proof fn lemma_u32_be_digits(x: u32)
    ensures
        u32_be_bytes(x).len() == 4,
        u32_be_bytes(x)[0] == x / 0x100_0000,
        u32_be_bytes(x)[1] == (x / 0x1_0000) % 256,
        u32_be_bytes(x)[2] == (x / 0x100) % 256,
        u32_be_bytes(x)[3] == x % 256,
{
    assert(((x >> 24u32) as u8) as u32 == x / 0x100_0000
        && ((x >> 16u32) as u8) as u32 == (x / 0x1_0000) % 256
        && ((x >> 8u32) as u8) as u32 == (x / 0x100) % 256
        && (x as u8) as u32 == x % 256) by (bit_vector);
}

/// A string as bincode writes it: its UTF-8 length as a big-endian `u64`,
/// then its UTF-8 bytes.
pub open spec fn string_frame(s: Seq<char>) -> Seq<u8> {
    u64_be_bytes(encode_utf8(s).len() as u64) + encode_utf8(s)
}

/// The length that a string frame at the start of `b` declares.
pub open spec fn declared_len(b: Seq<u8>) -> int {
    u64_from_be(b.take(8)) as int
}

/// Reading a string frame at the start of `b`: the string and the number of
/// bytes it takes, or `None` where `b` holds no complete frame of valid UTF-8.
pub open spec fn parse_string_frame(b: Seq<u8>) -> Option<(Seq<char>, int)> {
    if b.len() < 8 {
        None
    } else if declared_len(b) > b.len() - 8 {
        None
    } else if !valid_utf8(b.subrange(8, 8 + declared_len(b))) {
        None
    } else {
        Some((decode_utf8(b.subrange(8, 8 + declared_len(b))), 8 + declared_len(b)))
    }
}

/// A string frame, followed by any bytes, reads back as the string and the
/// frame's length.
pub proof fn lemma_string_frame_roundtrip(s: Seq<char>, rest: Seq<u8>)
    requires
        encode_utf8(s).len() <= u64::MAX,
    ensures
        parse_string_frame(string_frame(s) + rest) == Some((s, string_frame(s).len() as int)),
        string_frame(s).len() == 8 + encode_utf8(s).len(),
{
    let e = encode_utf8(s);
    let b = string_frame(s) + rest;
    lemma_u64_be_roundtrip(e.len() as u64);
    assert(b.take(8) =~= u64_be_bytes(e.len() as u64));
    assert(declared_len(b) == e.len());
    assert(b.subrange(8, 8 + e.len() as int) =~= e);
    encode_utf8_valid_utf8(s);
    encode_utf8_decode_utf8(s);
}

/// A string frame read at the start of `b` is exactly the bytes that
/// writing the string gives: every string has one frame.
pub proof fn lemma_string_frame_unique(b: Seq<u8>)
    ensures
        parse_string_frame(b) matches Some((s, n)) ==> string_frame(s) == b.take(n) && n <= b.len(),
{
    if let Some((s, n)) = parse_string_frame(b) {
        let len = declared_len(b);
        let body = b.subrange(8, 8 + len);
        decode_utf8_encode_utf8(body);
        assert(encode_utf8(s) == body);
        assert(encode_utf8(s).len() as u64 == u64_from_be(b.take(8)));
        lemma_u64_be_bytes_of_value(b.take(8));
        assert(b.take(8).take(8) =~= b.take(8));
        assert(string_frame(s) =~= b.take(n));
    }
}

/// `bincode::encode_to_vec` on a `String` with the project's configuration
/// (big endian, fixed-width integers). Writing into a `Vec` cannot fail, and
/// the bytes are the string's length as a `u64` followed by its UTF-8 bytes.
#[verifier::external_body]
fn bincode_encode_string(s: &String) -> (r: Result<Vec<u8>, EncodeError>)
    ensures
        r is Ok,
        r matches Ok(b) ==> b@ == string_frame(s@),
{
    bincode::encode_to_vec(s, bincode::config::standard().with_big_endian().with_fixed_int_encoding())
}

/// `bincode::decode_from_slice` of a `String` with the project's configuration.
/// It reads a big-endian `u64` length, then that many bytes, which must be
/// valid UTF-8; it returns the string and the number of bytes read. The
/// `requires` leaves out a declared length beyond the end of `b`: bincode
/// allocates the declared length before it finds the input too short.
#[verifier::external_body]
fn bincode_decode_string(b: &[u8]) -> (r: Result<(String, usize), DecodeError>)
    requires
        b@.len() >= 8 ==> declared_len(b@) <= b@.len() - 8,
    ensures
        match r {
            Ok((s, n)) => parse_string_frame(b@) == Some((s@, n as int)),
            Err(_) => parse_string_frame(b@) is None,
        },
{
    bincode::decode_from_slice(b, bincode::config::standard().with_big_endian().with_fixed_int_encoding())
}

/// Builds bincode's error for input that ends `additional` bytes too early.
#[verifier::external_body]
pub(crate) fn truncated_input_error(additional: usize) -> DecodeError {
    DecodeError::UnexpectedEnd { additional }
}

/// Writes `s` as a string frame.
pub fn encode_string(s: &String) -> (r: Result<Vec<u8>, EncodeError>)
    ensures
        r matches Ok(b) && b@ == string_frame(s@),
{
    bincode_encode_string(s)
}

/// Reads a string frame at the start of `b`. A frame whose declared length
/// runs past the end of `b` is refused as truncated input before any bytes
/// are read.
pub fn decode_string(b: &[u8]) -> (r: Result<(String, usize), DecodeError>)
    ensures
        match r {
            Ok((s, n)) => parse_string_frame(b@) == Some((s@, n as int)),
            Err(_) => parse_string_frame(b@) is None,
        },
{
    if b.len() >= 8 {
        let len = u64_read_be([b[0], b[1], b[2], b[3], b[4], b[5], b[6], b[7]]);
        proof {
            assert(b@.take(8) =~= seq![b@[0], b@[1], b@[2], b@[3], b@[4], b@[5], b@[6], b@[7]]);
        }
        let avail = b.len() - 8;
        if len > avail as u64 {
            return Err(truncated_input_error((len - avail as u64) as usize));
        }
    }
    bincode_decode_string(b)
}

/// A string frame is the string's UTF-8 length, as eight big-endian bytes,
/// followed by exactly its UTF-8 bytes.
pub proof fn lemma_string_frame_layout(s: Seq<char>)
    requires
        encode_utf8(s).len() <= u64::MAX,
    ensures
        string_frame(s).len() == 8 + encode_utf8(s).len(),
        u64_from_be(string_frame(s)) == encode_utf8(s).len(),
        string_frame(s).take(8) == u64_be_bytes(encode_utf8(s).len() as u64),
        string_frame(s).skip(8) == encode_utf8(s),
{
    let n = encode_utf8(s).len() as u64;
    lemma_u64_be_roundtrip(n);
    assert(string_frame(s).take(8) =~= u64_be_bytes(n));
    assert(string_frame(s).skip(8) =~= encode_utf8(s));
    assert(u64_from_be(string_frame(s)) == u64_from_be(u64_be_bytes(n)));
}

} // verus!
