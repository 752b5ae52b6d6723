//! Strings and packets on the wire: bytes behind their own length.

use vstd::prelude::*;
use vstd::slice::slice_subrange;
use vstd::slice::slice_to_vec;
use vstd::utf8::*;
use crate::error::FramingError;
use crate::varint::decode_varint;
use crate::varint::decode_varint_spec;
use crate::varint::encode_varint;
use crate::varint::encode_varint_spec;
use crate::varint::lemma_varint_bytes_len;
use crate::varint::lemma_varint_round_trip;
use crate::varint::varint_bytes;

verus! {

/// The error of `core::str::from_utf8`, which is carried and never looked into.
#[verifier::external_type_specification]
#[verifier::external_body]
pub struct ExUtf8Error(core::str::Utf8Error);

/// Trusted: `core::str::from_utf8` accepts exactly the well-formed UTF-8 byte
/// strings, and hands back the text that the bytes encode.
pub assume_specification[ core::str::from_utf8 ](v: &[u8]) -> (r: Result<&str, core::str::Utf8Error>)
    ensures
        r is Ok <==> valid_utf8(v@),
        r matches Ok(s) ==> s@ == decode_utf8(v@),
;

/// Bytes behind their own length: `varint(len) || bytes`.
pub open spec fn length_prefixed(bytes: Seq<u8>) -> Seq<u8> {
    varint_bytes(bytes.len()) + bytes
}

/// A string on the wire: the length of its UTF-8 form, then that form.
pub open spec fn encode_string_spec(text: Seq<char>) -> Seq<u8> {
    length_prefixed(encode_utf8(text))
}

/// Where the bytes behind the length prefix at `at` start and end.
pub open spec fn prefixed_range_spec(buf: Seq<u8>, at: int) -> Result<(int, int), FramingError> {
    match decode_varint_spec(buf, at) {
        Err(e) => Err(e),
        Ok((n, start)) => if n < 0 {
            Err(FramingError::BadLength)
        } else if start + n > buf.len() {
            Err(FramingError::ShortRead)
        } else {
            Ok((start, start + n))
        },
    }
}

/// The string that starts at `at`, with the index just behind it.
pub open spec fn decode_string_spec(buf: Seq<u8>, at: int) -> Result<(Seq<char>, int), FramingError> {
    match prefixed_range_spec(buf, at) {
        Err(e) => Err(e),
        Ok((start, end)) => if valid_utf8(buf.subrange(start, end)) {
            Ok((decode_utf8(buf.subrange(start, end)), end))
        } else {
            Err(FramingError::InvalidUtf8)
        },
    }
}

/// The payload of the packet at the front of `buf`, with the packet's full length.
pub open spec fn parse_frame_spec(buf: Seq<u8>) -> Result<(Seq<u8>, int), FramingError> {
    match prefixed_range_spec(buf, 0) {
        Err(e) => Err(e),
        Ok((start, end)) => Ok((buf.subrange(start, end), end)),
    }
}

/// Appends `src` to `out`.
pub(crate) fn extend_bytes(out: &mut Vec<u8>, src: &[u8])
    ensures
        final(out)@ == old(out)@ + src@,
{
    let mut i: usize = 0;
    while i < src.len()
        invariant
            i <= src.len(),
            out@ == old(out)@ + src@.subrange(0, i as int),
        decreases src.len() - i,
    {
        out.push(src[i]);
        i = i + 1;
    }
    assert(src@.subrange(0, i as int) =~= src@);
}

/// Puts its length in front of `payload`: the form of every packet on the wire.
pub fn frame_packet(payload: &[u8]) -> (out: Vec<u8>)
    requires
        payload.len() <= i32::MAX,
    ensures
        out@ == length_prefixed(payload@),
{
    let mut out = encode_varint(payload.len() as i32);
    extend_bytes(&mut out, payload);
    out
}

/// Writes a string in its wire form.
pub fn encode_string(s: &str) -> (out: Vec<u8>)
    requires
        encode_utf8(s@).len() <= i32::MAX,
    ensures
        out@ == encode_string_spec(s@),
{
    frame_packet(s.as_bytes())
}

/// Finds the bytes behind the length prefix at `at`.
pub fn prefixed_range(buf: &[u8], at: usize) -> (r: Result<(usize, usize), FramingError>)
    ensures
        match prefixed_range_spec(buf@, at as int) {
            Ok((start, end)) => r == Ok::<(usize, usize), FramingError>((start as usize, end as usize))
                && 0 <= start <= end <= buf.len(),
            Err(e) => r == Err::<(usize, usize), FramingError>(e),
        },
{
    match decode_varint(buf, at) {
        Err(e) => Err(e),
        Ok((n, start)) => {
            if n < 0 {
                Err(FramingError::BadLength)
            } else if n as usize > buf.len() - start {
                Err(FramingError::ShortRead)
            } else {
                Ok((start, start + n as usize))
            }
        },
    }
}

/// Reads the string that starts at `at` in `buf`.
pub fn decode_string(buf: &[u8], at: usize) -> (r: Result<(String, usize), FramingError>)
    ensures
        match decode_string_spec(buf@, at as int) {
            Ok((text, end)) => r matches Ok((s, e)) && s@ == text && e == end && end <= buf.len(),
            Err(e) => r == Err::<(String, usize), FramingError>(e),
        },
{
    match prefixed_range(buf, at) {
        Err(e) => Err(e),
        Ok((start, end)) => match core::str::from_utf8(slice_subrange(buf, start, end)) {
            Ok(s) => Ok((s.to_owned(), end)),
            Err(_) => Err(FramingError::InvalidUtf8),
        },
    }
}

/// Takes the packet at the front of `buf` apart: its payload, and how many
/// bytes of `buf` the packet took.
pub fn parse_frame(buf: &[u8]) -> (r: Result<(Vec<u8>, usize), FramingError>)
    ensures
        match parse_frame_spec(buf@) {
            Ok((payload, end)) => r matches Ok((p, e)) && p@ == payload && e == end && end <= buf.len(),
            Err(e) => r == Err::<(Vec<u8>, usize), FramingError>(e),
        },
{
    match prefixed_range(buf, 0) {
        Err(e) => Err(e),
        Ok((start, end)) => Ok((slice_to_vec(slice_subrange(buf, start, end)), end)),
    }
}

/// How many bytes to read behind the length of a packet: as many as it
/// says, unless it is negative.
pub fn frame_body_len(total_length: i32) -> (r: Result<usize, FramingError>)
    ensures
        total_length < 0 ==> r == Err::<usize, FramingError>(FramingError::BadLength),
        total_length >= 0 ==> r == Ok::<usize, FramingError>(total_length as usize),
{
    if total_length < 0 {
        Err(FramingError::BadLength)
    } else {
        Ok(total_length as usize)
    }
}

/// A character takes at most four bytes in UTF-8.
pub proof fn lemma_utf8_len(text: Seq<char>)
    ensures
        encode_utf8(text).len() <= 4 * text.len(),
    decreases text.len(),
{
    if text.len() > 0 {
        lemma_utf8_len(text.drop_first());
    }
}

/// A length prefix adds at most five bytes.
pub proof fn lemma_length_prefixed_len(bytes: Seq<u8>)
    requires
        bytes.len() <= i32::MAX,
    ensures
        bytes.len() + 1 <= length_prefixed(bytes).len() <= bytes.len() + 5,
{
    lemma_varint_bytes_len(bytes.len());
}

/// The range found behind a length prefix is the range that was written there.
pub proof fn lemma_prefixed_round_trip(before: Seq<u8>, bytes: Seq<u8>, after: Seq<u8>)
    requires
        bytes.len() <= i32::MAX,
    ensures
        ({
            let start = before.len() + varint_bytes(bytes.len()).len();
            let buf = before + length_prefixed(bytes) + after;
            &&& prefixed_range_spec(buf, before.len() as int) == Ok::<(int, int), FramingError>(
                (start as int, (start + bytes.len()) as int),
            )
            &&& buf.subrange(start as int, (start + bytes.len()) as int) == bytes
        }),
{
    let n = bytes.len() as i32;
    let prefix = varint_bytes(bytes.len());
    let buf = before + length_prefixed(bytes) + after;
    assert(encode_varint_spec(n) == prefix);
    lemma_varint_round_trip(before, n, bytes + after);
    assert(buf =~= before + prefix + (bytes + after));
    let start = before.len() + prefix.len();
    assert(buf.subrange(start as int, (start + bytes.len()) as int) =~= bytes);
}

/// Framing loses nothing: the payload parsed from a framed payload is that
/// payload, and parsing stops at the end of the frame whatever follows it.
pub proof fn lemma_frame_round_trip(payload: Seq<u8>, after: Seq<u8>)
    requires
        payload.len() <= i32::MAX,
    ensures
        parse_frame_spec(length_prefixed(payload) + after) == Ok::<(Seq<u8>, int), FramingError>(
            (payload, length_prefixed(payload).len() as int),
        ),
{
    lemma_prefixed_round_trip(Seq::<u8>::empty(), payload, after);
    assert(Seq::<u8>::empty() + length_prefixed(payload) + after =~= length_prefixed(payload)
        + after);
}

/// Every string reads back as itself, wherever its wire form stands in a buffer.
pub proof fn lemma_string_round_trip(before: Seq<u8>, text: Seq<char>, after: Seq<u8>)
    requires
        encode_utf8(text).len() <= i32::MAX,
    ensures
        decode_string_spec(before + encode_string_spec(text) + after, before.len() as int) == Ok::<
            (Seq<char>, int),
            FramingError,
        >((text, (before.len() + encode_string_spec(text).len()) as int)),
{
    lemma_prefixed_round_trip(before, encode_utf8(text), after);
    encode_utf8_valid_utf8(text);
    encode_utf8_decode_utf8(text);
}

} // verus!
