//! The packets that a server sends in the login phase, as far as a probe
//! reads them.

use vstd::prelude::*;
use vstd::slice::slice_subrange;
use vstd::utf8::valid_utf8;
use crate::codec::prefixed_range;
use crate::codec::prefixed_range_spec;
use crate::error::FramingError;
use crate::varint::decode_varint;
use crate::varint::decode_varint_spec;

verus! {

/// A packet of the login phase, as far as the probe reads it.
#[derive(Clone, Copy, Debug, PartialEq, Eq, Structural)]
pub enum LoginPacket {
    /// The server ends the login; `mentions_whitelist` says whether the
    /// reason that it gives speaks of a whitelist.
    Disconnect { mentions_whitelist: bool },
    /// The server asks for encryption before it goes on.
    EncryptionRequest,
    /// The server lets the login through.
    LoginSuccess,
    /// From the next packet on the connection frames its packets for compression.
    SetCompression { threshold: i32 },
    /// A plugin request, or a packet that the probe does not know.
    Other { id: i32 },
}

/// A letter of the basic Latin alphabet in lower case, any other byte unchanged.
pub open spec fn ascii_lower(b: u8) -> u8 {
    if 0x41 <= b <= 0x5a {
        (b + 0x20) as u8
    } else {
        b
    }
}

/// Whether `needle` stands in `hay` at `i`, the case of letters in `hay` set aside.
pub open spec fn matches_at(hay: Seq<u8>, needle: Seq<u8>, i: int) -> bool {
    &&& 0 <= i
    &&& i + needle.len() <= hay.len()
    &&& forall|j: int| 0 <= j < needle.len() ==> ascii_lower(#[trigger] hay[i + j]) == needle[j]
}

/// Whether `needle` stands anywhere in `hay`, the case of letters in `hay` set aside.
pub open spec fn contains_ignoring_case(hay: Seq<u8>, needle: Seq<u8>) -> bool {
    exists|i: int| matches_at(hay, needle, i)
}

/// The letters of `whitelist`.
pub open spec fn whitelist_word() -> Seq<u8> {
    seq![0x77u8, 0x68u8, 0x69u8, 0x74u8, 0x65u8, 0x6cu8, 0x69u8, 0x73u8, 0x74u8]
}

/// Whether the reason of a disconnect, the string at `at`, is well-formed
/// text that speaks of a whitelist.
pub open spec fn kick_mentions_whitelist_spec(payload: Seq<u8>, at: int) -> bool {
    match prefixed_range_spec(payload, at) {
        Ok((start, end)) => {
            &&& valid_utf8(payload.subrange(start, end))
            &&& contains_ignoring_case(payload.subrange(start, end), whitelist_word())
        },
        Err(_) => false,
    }
}

/// The packet that a payload of the login phase holds.
pub open spec fn parse_login_packet_spec(payload: Seq<u8>) -> Result<LoginPacket, FramingError> {
    match decode_varint_spec(payload, 0) {
        Err(e) => Err(e),
        Ok((id, at)) => if id == 0 {
            Ok(LoginPacket::Disconnect { mentions_whitelist: kick_mentions_whitelist_spec(payload, at) })
        } else if id == 1 {
            Ok(LoginPacket::EncryptionRequest)
        } else if id == 2 {
            Ok(LoginPacket::LoginSuccess)
        } else if id == 3 {
            match decode_varint_spec(payload, at) {
                Ok((threshold, _)) => Ok(LoginPacket::SetCompression { threshold }),
                Err(e) => Err(e),
            }
        } else {
            Ok(LoginPacket::Other { id })
        },
    }
}

fn lower(b: u8) -> (r: u8)
    ensures
        r == ascii_lower(b),
{
    if 0x41 <= b && b <= 0x5a {
        b + 0x20
    } else {
        b
    }
}

/// Looks for `needle` in `hay`, reading the letters of `hay` without their case.
pub fn contains_ignoring_ascii_case(hay: &[u8], needle: &[u8]) -> (found: bool)
    ensures
        found == contains_ignoring_case(hay@, needle@),
{
    if needle.len() > hay.len() {
        assert(forall|i: int| !matches_at(hay@, needle@, i));
        return false;
    }
    let last: usize = hay.len() - needle.len();
    let mut i: usize = 0;
    while i <= last
        invariant
            i <= last + 1,
            last == hay.len() - needle.len(),
            forall|p: int| 0 <= p < i ==> !matches_at(hay@, needle@, p),
        decreases last + 1 - i,
    {
        let mut j: usize = 0;
        while j < needle.len() && lower(hay[i + j]) == needle[j]
            invariant
                j <= needle.len(),
                i + needle.len() <= hay.len(),
                forall|q: int| 0 <= q < j ==> ascii_lower(#[trigger] hay@[i + q]) == needle@[q],
            decreases needle.len() - j,
        {
            j = j + 1;
        }
        if j == needle.len() {
            assert(matches_at(hay@, needle@, i as int));
            return true;
        }
        assert(!matches_at(hay@, needle@, i as int)) by {
            assert(ascii_lower(hay@[i + j]) != needle@[j as int]);
        }
        i = i + 1;
    }
    assert(forall|p: int| !matches_at(hay@, needle@, p));
    false
}

/// Reads the reason of a disconnect and says whether it speaks of a whitelist.
pub fn kick_mentions_whitelist(payload: &[u8], at: usize) -> (found: bool)
    ensures
        found == kick_mentions_whitelist_spec(payload@, at as int),
{
    match prefixed_range(payload, at) {
        Err(_) => false,
        Ok((start, end)) => {
            let text = slice_subrange(payload, start, end);
            match core::str::from_utf8(text) {
                Err(_) => false,
                Ok(_) => {
                    let word: [u8; 9] = [0x77, 0x68, 0x69, 0x74, 0x65, 0x6c, 0x69, 0x73, 0x74];
                    assert(word@ =~= whitelist_word());
                    contains_ignoring_ascii_case(text, word.as_slice())
                },
            }
        },
    }
}

/// Reads the packet that a payload of the login phase holds.
pub fn parse_login_packet(payload: &[u8]) -> (r: Result<LoginPacket, FramingError>)
    ensures
        r == parse_login_packet_spec(payload@),
{
    match decode_varint(payload, 0) {
        Err(e) => Err(e),
        Ok((id, at)) => {
            if id == 0 {
                Ok(LoginPacket::Disconnect { mentions_whitelist: kick_mentions_whitelist(payload, at) })
            } else if id == 1 {
                Ok(LoginPacket::EncryptionRequest)
            } else if id == 2 {
                Ok(LoginPacket::LoginSuccess)
            } else if id == 3 {
                match decode_varint(payload, at) {
                    Ok((threshold, _)) => Ok(LoginPacket::SetCompression { threshold }),
                    Err(e) => Err(e),
                }
            } else {
                Ok(LoginPacket::Other { id })
            }
        },
    }
}

} // verus!
