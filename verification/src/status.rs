//! The status dialogue: the packets that ask for a status, and the document
//! that answers.

use vstd::prelude::*;
use vstd::slice::slice_subrange;
use vstd::slice::slice_to_vec;
use vstd::utf8::encode_utf8;
use crate::codec::length_prefixed;
use crate::codec::prefixed_range;
use crate::codec::prefixed_range_spec;
use crate::config::MAX_HOST_BYTES;
use crate::config::STATUS_PROTOCOL_VERSION;
use crate::error::FramingError;
use crate::packets::create_handshake_packet;
use crate::packets::create_status_request;
use crate::packets::handshake_payload;
use crate::packets::lemma_handshake_payload_len;
use crate::packets::STATUS_INTENT;
use crate::text::ChatComponent;
use crate::varint::decode_varint;
use crate::varint::decode_varint_spec;

verus! {

/// The version block of a status document.
#[derive(Debug, PartialEq, Eq)]
pub struct VersionInfo {
    pub name: String,
    pub protocol: i32,
}

/// One player of the sample in a status document.
#[derive(Debug, PartialEq, Eq)]
pub struct PlayerSample {
    pub name: String,
    pub id: String,
}

/// The players block of a status document.
#[derive(Debug, PartialEq, Eq)]
pub struct PlayersInfo {
    pub max: i32,
    pub online: i32,
    pub sample: Option<Vec<PlayerSample>>,
}

/// A decoded status document. A server may leave any block out.
#[derive(Debug, PartialEq, Eq)]
pub struct ServerResponse {
    pub version: Option<VersionInfo>,
    pub players: Option<PlayersInfo>,
    /// The message of the day.
    pub description: Option<ChatComponent>,
    pub favicon: Option<String>,
}

/// The two packets that open the status dialogue: the handshake for status,
/// with the protocol that stands for "any", and the status request. A host
/// name too long for a handshake gives `BadLength`.
pub fn status_packets(host: &str, port: u16) -> (r: Result<(Vec<u8>, Vec<u8>), FramingError>)
    ensures
        encode_utf8(host@).len() > MAX_HOST_BYTES ==> r == Err::<(Vec<u8>, Vec<u8>), FramingError>(
            FramingError::BadLength,
        ),
        encode_utf8(host@).len() <= MAX_HOST_BYTES ==> (r matches Ok((handshake, request))
            && handshake@ == length_prefixed(
            handshake_payload(host@, port, STATUS_INTENT, STATUS_PROTOCOL_VERSION),
        ) && request@ == seq![1u8, 0u8]),
{
    if host.as_bytes().len() > MAX_HOST_BYTES {
        return Err(FramingError::BadLength);
    }
    proof {
        lemma_handshake_payload_len(host@, port, STATUS_INTENT, STATUS_PROTOCOL_VERSION);
    }
    Ok((create_handshake_packet(host, port, STATUS_INTENT, STATUS_PROTOCOL_VERSION), create_status_request()))
}

/// The JSON document in the payload of a status response: the bytes of the
/// string that follows the packet id.
pub open spec fn status_json_spec(payload: Seq<u8>) -> Result<Seq<u8>, FramingError> {
    match decode_varint_spec(payload, 0) {
        Err(e) => Err(e),
        Ok((_, at)) => match prefixed_range_spec(payload, at) {
            Err(e) => Err(e),
            Ok((start, end)) => Ok(payload.subrange(start, end)),
        },
    }
}

/// Takes the JSON document out of the payload of a status response.
pub fn status_json(payload: &[u8]) -> (r: Result<Vec<u8>, FramingError>)
    ensures
        match status_json_spec(payload@) {
            Ok(json) => r matches Ok(bytes) && bytes@ == json,
            Err(e) => r == Err::<Vec<u8>, FramingError>(e),
        },
{
    match decode_varint(payload, 0) {
        Err(e) => Err(e),
        Ok((_, at)) => match prefixed_range(payload, at) {
            Err(e) => Err(e),
            Ok((start, end)) => Ok(slice_to_vec(slice_subrange(payload, start, end))),
        },
    }
}

} // verus!
