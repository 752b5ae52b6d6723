//! The packets that a client sends: handshake, status request, login start.

use vstd::prelude::*;
use vstd::utf8::encode_utf8;
use crate::codec::encode_string;
use crate::codec::encode_string_spec;
use crate::codec::extend_bytes;
use crate::codec::frame_packet;
use crate::codec::lemma_length_prefixed_len;
use crate::codec::length_prefixed;
use crate::varint::encode_varint;
use crate::varint::encode_varint_spec;
use crate::varint::lemma_encode_varint_len;

verus! {

/// The next state that a handshake asks for to get a status.
pub const STATUS_INTENT: i32 = 1;

/// The next state that a handshake asks for to log in.
pub const LOGIN_INTENT: i32 = 2;

/// The byte of a hyphen.
pub const HYPHEN: u8 = 0x2d;

/// The byte of a plus sign.
pub const PLUS: u8 = 0x2b;

/// The bytes of `text` without its hyphens, in order.
pub open spec fn without_hyphens(text: Seq<u8>) -> Seq<u8>
    decreases text.len(),
{
    if text.len() == 0 {
        Seq::empty()
    } else if text.last() == HYPHEN {
        without_hyphens(text.drop_last())
    } else {
        without_hyphens(text.drop_last()).push(text.last())
    }
}

/// The value of a hexadecimal digit, in either case.
pub open spec fn hex_digit(b: u8) -> Option<u8> {
    if 0x30 <= b <= 0x39 {
        Some((b - 0x30) as u8)
    } else if 0x61 <= b <= 0x66 {
        Some((b - 0x61 + 10) as u8)
    } else if 0x41 <= b <= 0x46 {
        Some((b - 0x41 + 10) as u8)
    } else {
        None
    }
}

/// The value of a hexadecimal digit, or zero for any other byte.
pub open spec fn hex_digit_or_zero(b: u8) -> u8 {
    match hex_digit(b) {
        Some(v) => v,
        None => 0,
    }
}

/// The byte that a chunk of one or two characters spells in hexadecimal. A
/// plus sign may stand for the first digit. A chunk that spells no number
/// counts as zero.
pub open spec fn chunk_value(chunk: Seq<u8>) -> u8 {
    if chunk.len() == 1 {
        hex_digit_or_zero(chunk[0])
    } else if chunk.len() == 2 {
        if chunk[0] == PLUS {
            hex_digit_or_zero(chunk[1])
        } else {
            match (hex_digit(chunk[0]), hex_digit(chunk[1])) {
                (Some(high), Some(low)) => (16 * high + low) as u8,
                _ => 0,
            }
        }
    } else {
        0
    }
}

/// The `k`-th chunk of two characters of `clean`; the last chunk has one
/// character where their number is odd.
pub open spec fn chunk_at(clean: Seq<u8>, k: int) -> Seq<u8> {
    clean.subrange(2 * k, if 2 * k + 2 <= clean.len() { 2 * k + 2 } else { clean.len() as int })
}

/// One byte for each chunk of `clean`.
pub open spec fn chunk_bytes(clean: Seq<u8>) -> Seq<u8> {
    Seq::new(((clean.len() + 1) / 2) as nat, |k: int| chunk_value(chunk_at(clean, k)))
}

/// The raw bytes that the text of a UUID stands for: its hyphens are dropped,
/// wherever they stand, and every two characters left give one byte.
pub open spec fn parse_uuid_spec(text: Seq<u8>) -> Seq<u8> {
    chunk_bytes(without_hyphens(text))
}

fn hex_digit_value(b: u8) -> (r: Option<u8>)
    ensures
        r == hex_digit(b),
{
    if 0x30 <= b && b <= 0x39 {
        Some(b - 0x30)
    } else if 0x61 <= b && b <= 0x66 {
        Some(b - 0x61 + 10)
    } else if 0x41 <= b && b <= 0x46 {
        Some(b - 0x41 + 10)
    } else {
        None
    }
}

fn pair_value(first: u8, second: u8) -> (r: u8)
    ensures
        r == chunk_value(seq![first, second]),
{
    if first == PLUS {
        match hex_digit_value(second) {
            Some(v) => v,
            None => 0,
        }
    } else {
        match (hex_digit_value(first), hex_digit_value(second)) {
            (Some(high), Some(low)) => 16 * high + low,
            _ => 0,
        }
    }
}

fn single_value(only: u8) -> (r: u8)
    ensures
        r == chunk_value(seq![only]),
{
    match hex_digit_value(only) {
        Some(v) => v,
        None => 0,
    }
}

fn strip_hyphens(text: &[u8]) -> (clean: Vec<u8>)
    ensures
        clean@ == without_hyphens(text@),
{
    let mut clean: Vec<u8> = Vec::new();
    let mut i: usize = 0;
    while i < text.len()
        invariant
            i <= text.len(),
            clean@ == without_hyphens(text@.take(i as int)),
        decreases text.len() - i,
    {
        assert(text@.take(i + 1).drop_last() =~= text@.take(i as int));
        if text[i] != HYPHEN {
            clean.push(text[i]);
        }
        i = i + 1;
    }
    assert(text@.take(i as int) =~= text@);
    clean
}

/// Turns the text of a UUID into its raw bytes, sixteen of them where the
/// text holds thirty-two hexadecimal digits.
pub fn parse_uuid(uuid: &str) -> (out: Vec<u8>)
    ensures
        out@ == parse_uuid_spec(encode_utf8(uuid@)),
{
    let clean = strip_hyphens(uuid.as_bytes());
    let mut out: Vec<u8> = Vec::new();
    let mut i: usize = 0;
    while i < clean.len()
        invariant
            i <= clean.len(),
            i == 2 * out.len() || (i == clean.len() && out.len() == (clean.len() + 1) / 2),
            out.len() <= (clean.len() + 1) / 2,
            forall|k: int| 0 <= k < out.len() ==> out@[k] == chunk_value(chunk_at(clean@, k)),
        decreases clean.len() - i,
    {
        if clean.len() - i >= 2 {
            assert(chunk_at(clean@, out.len() as int) =~= seq![clean@[i as int], clean@[i + 1]]);
            out.push(pair_value(clean[i], clean[i + 1]));
            i = i + 2;
        } else {
            assert(chunk_at(clean@, out.len() as int) =~= seq![clean@[i as int]]);
            out.push(single_value(clean[i]));
            i = clean.len();
        }
    }
    assert(out@ =~= chunk_bytes(clean@));
    out
}

/// A port as two bytes, the high byte first.
pub open spec fn u16_be(port: u16) -> Seq<u8> {
    seq![(port / 256) as u8, (port % 256) as u8]
}

/// What a handshake holds behind its length: packet id 0, the protocol, the
/// host, the port, and the state that the client asks for next.
pub open spec fn handshake_payload(host: Seq<char>, port: u16, next_state: i32, protocol: i32) -> Seq<u8> {
    encode_varint_spec(0) + encode_varint_spec(protocol) + encode_string_spec(host) + u16_be(port)
        + encode_varint_spec(next_state)
}

/// What follows the name in a login start, by the protocol of the server.
pub open spec fn login_tail(protocol: i32, uuid: Seq<u8>) -> Seq<u8> {
    if 47 <= protocol <= 758 {
        Seq::empty()
    } else if protocol == 759 {
        seq![0u8]
    } else if protocol == 760 {
        seq![0u8, 1u8] + uuid
    } else if 761 <= protocol <= 763 {
        seq![1u8] + uuid
    } else if protocol >= 764 {
        uuid
    } else {
        Seq::empty()
    }
}

/// What a login start holds behind its length: packet id 0, the name, and
/// the tail that the protocol calls for.
pub open spec fn login_start_payload(username: Seq<char>, uuid: Seq<char>, protocol: i32) -> Seq<u8> {
    encode_varint_spec(0) + encode_string_spec(username) + login_tail(
        protocol,
        parse_uuid_spec(encode_utf8(uuid)),
    )
}

/// Thirty-two hexadecimal digits give sixteen bytes, wherever hyphens stand
/// between them: each byte is two digits, the high one first, in order.
pub proof fn lemma_uuid_of_hex_digits(text: Seq<u8>)
    requires
        without_hyphens(text).len() == 32,
        forall|i: int| 0 <= i < 32 ==> hex_digit(#[trigger] without_hyphens(text)[i]) is Some,
    ensures
        parse_uuid_spec(text).len() == 16,
        forall|k: int|
            0 <= k < 16 ==> #[trigger] parse_uuid_spec(text)[k] == 16 * hex_digit(
                without_hyphens(text)[2 * k],
            )->0 + hex_digit(without_hyphens(text)[2 * k + 1])->0,
{
    let digits = without_hyphens(text);
    assert forall|k: int| 0 <= k < 16 implies #[trigger] parse_uuid_spec(text)[k] == 16 * hex_digit(
        digits[2 * k],
    )->0 + hex_digit(digits[2 * k + 1])->0 by {
        let chunk = chunk_at(digits, k);
        assert(chunk.len() == 2);
        assert(chunk[0] == digits[2 * k]);
        assert(chunk[1] == digits[2 * k + 1]);
        assert(hex_digit(digits[2 * k]) is Some);
        assert(hex_digit(digits[2 * k + 1]) is Some);
    }
}

proof fn lemma_without_hyphens_len(text: Seq<u8>)
    ensures
        without_hyphens(text).len() <= text.len(),
    decreases text.len(),
{
    if text.len() > 0 {
        lemma_without_hyphens_len(text.drop_last());
    }
}

/// A handshake is at most eighteen bytes longer than the name of its host.
pub proof fn lemma_handshake_payload_len(host: Seq<char>, port: u16, next_state: i32, protocol: i32)
    requires
        encode_utf8(host).len() <= i32::MAX,
    ensures
        handshake_payload(host, port, next_state, protocol).len() <= encode_utf8(host).len() + 18,
{
    lemma_encode_varint_len(0);
    lemma_encode_varint_len(protocol);
    lemma_encode_varint_len(next_state);
    lemma_length_prefixed_len(encode_utf8(host));
}

/// A login start is at most eight bytes longer than the name and the raw UUID
/// in it, and the raw UUID holds at most one byte for every two of its text.
pub proof fn lemma_login_start_payload_len(username: Seq<char>, uuid: Seq<char>, protocol: i32)
    requires
        encode_utf8(username).len() <= i32::MAX,
    ensures
        login_start_payload(username, uuid, protocol).len() <= encode_utf8(username).len() + (
        encode_utf8(uuid).len() + 1) / 2 + 8,
{
    lemma_encode_varint_len(0);
    lemma_length_prefixed_len(encode_utf8(username));
    lemma_without_hyphens_len(encode_utf8(uuid));
}

/// From release 1.19.3 to release 1.20.1 a login start is packet id 0, the
/// name, the mark that a UUID follows, and the raw UUID.
pub proof fn lemma_login_start_with_marked_uuid(username: Seq<char>, uuid: Seq<char>, protocol: i32)
    requires
        761 <= protocol <= 763,
    ensures
        login_start_payload(username, uuid, protocol) == seq![0u8] + encode_string_spec(username)
            + seq![1u8] + parse_uuid_spec(encode_utf8(uuid)),
{
    assert(encode_varint_spec(0) =~= seq![0u8]);
    assert(login_start_payload(username, uuid, protocol) =~= seq![0u8] + encode_string_spec(username)
        + seq![1u8] + parse_uuid_spec(encode_utf8(uuid)));
}

/// Builds the first packet of a connection.
pub fn create_handshake_packet(host: &str, port: u16, next_state: i32, protocol: i32) -> (packet: Vec<u8>)
    requires
        handshake_payload(host@, port, next_state, protocol).len() <= i32::MAX,
    ensures
        packet@ == length_prefixed(handshake_payload(host@, port, next_state, protocol)),
{
    let mut data: Vec<u8> = Vec::new();
    let id = encode_varint(0);
    extend_bytes(&mut data, id.as_slice());
    let version = encode_varint(protocol);
    extend_bytes(&mut data, version.as_slice());
    let address = encode_string(host);
    extend_bytes(&mut data, address.as_slice());
    let high: u8 = (port >> 8) as u8;
    let low: u8 = (port & 0xff) as u8;
    assert(high == (port / 256) as u8 && low == (port % 256) as u8) by (bit_vector)
        requires
            high == (port >> 8) as u8,
            low == (port & 0xff) as u8,
    ;
    data.push(high);
    data.push(low);
    let next = encode_varint(next_state);
    extend_bytes(&mut data, next.as_slice());
    assert(data@ =~= handshake_payload(host@, port, next_state, protocol));
    frame_packet(data.as_slice())
}

/// Builds the request that follows a handshake for status: a packet that
/// holds its id, 0, and nothing else.
pub fn create_status_request() -> (packet: Vec<u8>)
    ensures
        packet@ == seq![1u8, 0u8],
{
    let mut packet: Vec<u8> = Vec::new();
    packet.push(1);
    packet.push(0);
    packet
}

/// Builds the packet that opens a login, in the shape that the protocol of
/// the server calls for.
pub fn create_login_start(username: &str, uuid: &str, protocol: i32) -> (packet: Vec<u8>)
    requires
        login_start_payload(username@, uuid@, protocol).len() <= i32::MAX,
    ensures
        packet@ == length_prefixed(login_start_payload(username@, uuid@, protocol)),
{
    let mut data: Vec<u8> = Vec::new();
    let id = encode_varint(0);
    extend_bytes(&mut data, id.as_slice());
    let name = encode_string(username);
    extend_bytes(&mut data, name.as_slice());
    if protocol == 759 {
        data.push(0);
    } else if protocol == 760 {
        data.push(0);
        data.push(1);
    } else if protocol >= 761 && protocol <= 763 {
        data.push(1);
    }
    if protocol >= 760 {
        let raw = parse_uuid(uuid);
        extend_bytes(&mut data, raw.as_slice());
    }
    assert(data@ =~= login_start_payload(username@, uuid@, protocol));
    frame_packet(data.as_slice())
}

} // verus!
