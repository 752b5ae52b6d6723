//! The framing of packets once a server has switched compression on.

use std::io::Read;
use vstd::prelude::*;
use vstd::slice::slice_subrange;
use vstd::slice::slice_to_vec;
use crate::error::FramingError;
use crate::error::ProbeError;
use crate::varint::decode_varint;
use crate::varint::decode_varint_spec;

verus! {

/// What `data` inflates to as a zlib stream, and nothing where the stream is
/// corrupt or cut short.
pub uninterp spec fn zlib_inflated(data: Seq<u8>) -> Option<Seq<u8>>;

/// Runs `flate2::read::ZlibDecoder` over `data` to the end of its stream.
/// Trusted: whether the decoder fails, and what it yields where it does not,
/// depends on the bytes of `data` alone.
#[verifier::external_body]
fn inflate(data: &[u8]) -> (r: Option<Vec<u8>>)
    ensures
        match r {
            Some(bytes) => zlib_inflated(data@) == Some(bytes@),
            None => zlib_inflated(data@) is None,
        },
{
    let mut bytes = Vec::new();
    match flate2::read::ZlibDecoder::new(data).read_to_end(&mut bytes) {
        Ok(_) => Some(bytes),
        Err(_) => None,
    }
}

/// The payload inside a packet body, under the framing that `threshold` calls for.
pub open spec fn open_body_spec(threshold: i32, body: Seq<u8>) -> Result<Seq<u8>, ProbeError> {
    if threshold < 0 {
        Ok(body)
    } else {
        match decode_varint_spec(body, 0) {
            Err(e) => Err(ProbeError::Framing(e)),
            Ok((data_length, at)) => if data_length == 0 {
                Ok(body.subrange(at, body.len() as int))
            } else {
                match zlib_inflated(body.subrange(at, body.len() as int)) {
                    Some(bytes) => Ok(bytes),
                    None => Err(ProbeError::Decompression),
                }
            },
        }
    }
}

/// A packet body whose data length is zero holds its payload plain: nothing
/// is inflated, whatever the bytes behind the data length are.
pub proof fn lemma_zero_data_length_is_plain(threshold: i32, body: Seq<u8>, at: int)
    requires
        threshold >= 0,
        decode_varint_spec(body, 0) == Ok::<(i32, int), FramingError>((0i32, at)),
    ensures
        open_body_spec(threshold, body) == Ok::<Seq<u8>, ProbeError>(body.subrange(at, body.len() as int)),
{
}

/// Takes the payload out of a packet body: the body itself while packets
/// arrive plain, else what stands behind the data length, inflated unless
/// that length is zero.
pub fn open_body(threshold: i32, body: &[u8]) -> (r: Result<Vec<u8>, ProbeError>)
    ensures
        match open_body_spec(threshold, body@) {
            Ok(payload) => r matches Ok(p) && p@ == payload,
            Err(e) => r == Err::<Vec<u8>, ProbeError>(e),
        },
{
    if threshold < 0 {
        return Ok(slice_to_vec(body));
    }
    match decode_varint(body, 0) {
        Err(e) => Err(ProbeError::Framing(e)),
        Ok((data_length, at)) => {
            let rest = slice_subrange(body, at, body.len());
            if data_length == 0 {
                Ok(slice_to_vec(rest))
            } else {
                match inflate(rest) {
                    Some(bytes) => Ok(bytes),
                    None => Err(ProbeError::Decompression),
                }
            }
        },
    }
}

} // verus!
