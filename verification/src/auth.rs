//! The login probe: the packet with which a server answers a login tells
//! how it authenticates.

use vstd::prelude::*;
use vstd::utf8::encode_utf8;
use crate::codec::lemma_utf8_len;
use crate::codec::length_prefixed;
use crate::compression::open_body;
use crate::compression::open_body_spec;
use crate::config::MAX_HOST_BYTES;
use crate::config::MIN_PROTOCOL_VERSION;
use crate::config::PROBE_USERNAME;
use crate::config::PROBE_UUID;
use crate::error::FramingError;
use crate::error::ProbeError;
use crate::login::parse_login_packet;
use crate::login::parse_login_packet_spec;
use crate::login::LoginPacket;
use crate::packets::create_handshake_packet;
use crate::packets::create_login_start;
use crate::packets::handshake_payload;
use crate::packets::lemma_handshake_payload_len;
use crate::packets::lemma_login_start_payload_len;
use crate::packets::login_start_payload;
use crate::packets::LOGIN_INTENT;
use crate::varint::decode_varint_spec;
use crate::varint::varint_scan;

verus! {


/// How a server treats a login that has no session behind it.
#[derive(Clone, Copy, Debug, PartialEq, Eq, Structural)]
pub enum AuthMode {
    /// The probe could not tell.
    Unknown,
    /// The server lets the login through: it does not ask the session service.
    Cracked,
    /// The server asks for encryption: it checks logins with the session service.
    Premium,
    /// The server turned the login away before authenticating it.
    Whitelisted,
}

impl AuthMode {
    /// The number that stands for the mode in a report.
    pub open spec fn code_spec(self) -> i32 {
        match self {
            AuthMode::Unknown => -1i32,
            AuthMode::Cracked => 0i32,
            AuthMode::Premium => 1i32,
            AuthMode::Whitelisted => 2i32,
        }
    }

    /// Gives the number that stands for the mode in a report.
    #[verifier::when_used_as_spec(code_spec)]
    pub fn code(self) -> (c: i32)
        ensures
            c == self.code_spec(),
    {
        match self {
            AuthMode::Unknown => -1,
            AuthMode::Cracked => 0,
            AuthMode::Premium => 1,
            AuthMode::Whitelisted => 2,
        }
    }
}

/// What the probe does after a packet.
#[derive(Clone, Copy, Debug, PartialEq, Eq, Structural)]
pub enum AuthStep {
    /// Nothing is decided: read the next packet.
    Continue,
    /// The server has shown its mode: the probe is over.
    Classified(AuthMode),
    /// The probe failed.
    Failed(ProbeError),
}

/// The mode that a login packet gives away, if it gives one away. Every
/// disconnect counts as a whitelist, whatever its reason says: a server that
/// ends a login before authenticating it has most often turned the name away.
pub open spec fn classify_spec(packet: LoginPacket) -> Option<AuthMode> {
    match packet {
        LoginPacket::Disconnect { .. } => Some(AuthMode::Whitelisted),
        LoginPacket::EncryptionRequest => Some(AuthMode::Premium),
        LoginPacket::LoginSuccess => Some(AuthMode::Cracked),
        LoginPacket::SetCompression { .. } => None,
        LoginPacket::Other { .. } => None,
    }
}

/// Says which mode a login packet gives away, if it gives one away.
#[verifier::when_used_as_spec(classify_spec)]
pub fn classify(packet: LoginPacket) -> (mode: Option<AuthMode>)
    ensures
        mode == classify_spec(packet),
{
    match packet {
        LoginPacket::Disconnect { .. } => Some(AuthMode::Whitelisted),
        LoginPacket::EncryptionRequest => Some(AuthMode::Premium),
        LoginPacket::LoginSuccess => Some(AuthMode::Cracked),
        LoginPacket::SetCompression { .. } => None,
        LoginPacket::Other { .. } => None,
    }
}

/// The state of one login probe: how the connection frames its packets.
#[derive(Clone, Copy, Debug, PartialEq, Eq, Structural)]
pub struct AuthProbe {
    /// Negative while packets arrive plain; once a set-compression packet has
    /// brought a threshold of zero or more, every packet has a data length
    /// in front of its body.
    pub compression_threshold: i32,
}

/// The step and the threshold that follow a payload.
pub open spec fn payload_step_spec(threshold: i32, payload: Seq<u8>) -> (AuthStep, i32) {
    if payload.len() == 0 {
        (AuthStep::Continue, threshold)
    } else {
        match parse_login_packet_spec(payload) {
            Err(e) => (AuthStep::Failed(ProbeError::Framing(e)), threshold),
            Ok(packet) => match classify_spec(packet) {
                Some(mode) => (AuthStep::Classified(mode), threshold),
                None => match packet {
                    LoginPacket::SetCompression { threshold: t } => (AuthStep::Continue, t),
                    _ => (AuthStep::Continue, threshold),
                },
            },
        }
    }
}

/// The step and the threshold that follow a packet body.
pub open spec fn body_step_spec(threshold: i32, body: Seq<u8>) -> (AuthStep, i32) {
    match open_body_spec(threshold, body) {
        Err(e) => (AuthStep::Failed(e), threshold),
        Ok(payload) => payload_step_spec(threshold, payload),
    }
}

/// The packet id alone decides the mode: whatever follows the id of a
/// disconnect, an encryption request or a login success, and however broken
/// it is, the probe ends with the mode of that packet and the framing stays
/// as it was.
pub proof fn lemma_packet_id_decides(threshold: i32, payload: Seq<u8>)
    requires
        decode_varint_spec(payload, 0) is Ok,
    ensures
        ({
            let id = decode_varint_spec(payload, 0)->Ok_0.0;
            &&& id == 0 ==> payload_step_spec(threshold, payload) == (
                AuthStep::Classified(AuthMode::Whitelisted),
                threshold,
            )
            &&& id == 1 ==> payload_step_spec(threshold, payload) == (
                AuthStep::Classified(AuthMode::Premium),
                threshold,
            )
            &&& id == 2 ==> payload_step_spec(threshold, payload) == (
                AuthStep::Classified(AuthMode::Cracked),
                threshold,
            )
            &&& id != 0 && id != 1 && id != 2 && id != 3 ==> payload_step_spec(threshold, payload) == (
                AuthStep::Continue,
                threshold,
            )
        }),
{
    reveal_with_fuel(varint_scan, 1);
}

impl AuthProbe {
    /// A probe on a fresh connection: packets arrive plain.
    pub fn new() -> (probe: AuthProbe)
        ensures
            probe.compression_threshold == -1,
    {
        AuthProbe { compression_threshold: -1 }
    }

    /// How many bytes to read behind a packet length. A length of zero or less
    /// announces nothing: the next length follows at once.
    pub fn body_len(total_length: i32) -> (len: Option<usize>)
        ensures
            total_length <= 0 ==> len is None,
            total_length > 0 ==> len == Some(total_length as usize),
    {
        if total_length <= 0 {
            None
        } else {
            Some(total_length as usize)
        }
    }

    /// Reads one payload of the login phase and decides how the probe goes on.
    pub fn on_payload(&mut self, payload: &[u8]) -> (step: AuthStep)
        ensures
            (step, final(self).compression_threshold) == payload_step_spec(
                old(self).compression_threshold,
                payload@,
            ),
    {
        if payload.len() == 0 {
            return AuthStep::Continue;
        }
        match parse_login_packet(payload) {
            Err(e) => AuthStep::Failed(ProbeError::Framing(e)),
            Ok(packet) => match classify(packet) {
                Some(mode) => AuthStep::Classified(mode),
                None => {
                    if let LoginPacket::SetCompression { threshold } = packet {
                        self.compression_threshold = threshold;
                    }
                    AuthStep::Continue
                },
            },
        }
    }

    /// Reads one packet body as it came off the connection and decides how the
    /// probe goes on.
    pub fn on_body(&mut self, body: &[u8]) -> (step: AuthStep)
        ensures
            (step, final(self).compression_threshold) == body_step_spec(
                old(self).compression_threshold,
                body@,
            ),
    {
        match open_body(self.compression_threshold, body) {
            Err(e) => AuthStep::Failed(e),
            Ok(payload) => self.on_payload(payload.as_slice()),
        }
    }
}

/// The two packets that open the login probe: the handshake for login, with
/// the protocol that the server named, and the login start in the shape of
/// that protocol. A protocol older than the probe speaks is refused first,
/// then a host name too long for a handshake.
pub fn login_packets(host: &str, port: u16, protocol: i32) -> (r: Result<(Vec<u8>, Vec<u8>), ProbeError>)
    ensures
        protocol < MIN_PROTOCOL_VERSION ==> r == Err::<(Vec<u8>, Vec<u8>), ProbeError>(
            ProbeError::UnsupportedProtocol(protocol),
        ),
        protocol >= MIN_PROTOCOL_VERSION && encode_utf8(host@).len() > MAX_HOST_BYTES ==> r == Err::<
            (Vec<u8>, Vec<u8>),
            ProbeError,
        >(ProbeError::Framing(FramingError::BadLength)),
        protocol >= MIN_PROTOCOL_VERSION && encode_utf8(host@).len() <= MAX_HOST_BYTES ==> (r matches Ok(
            (handshake, login),
        ) && handshake@ == length_prefixed(handshake_payload(host@, port, LOGIN_INTENT, protocol)) && login@
            == length_prefixed(login_start_payload(PROBE_USERNAME@, PROBE_UUID@, protocol))),
{
    if protocol < MIN_PROTOCOL_VERSION {
        return Err(ProbeError::UnsupportedProtocol(protocol));
    }
    if host.as_bytes().len() > MAX_HOST_BYTES {
        return Err(ProbeError::Framing(FramingError::BadLength));
    }
    proof {
        lemma_handshake_payload_len(host@, port, LOGIN_INTENT, protocol);
        reveal_strlit("popiiumaa");
        reveal_strlit("00000000-0000-0000-0000-000000000000");
        lemma_utf8_len(PROBE_USERNAME@);
        lemma_utf8_len(PROBE_UUID@);
        lemma_login_start_payload_len(PROBE_USERNAME@, PROBE_UUID@, protocol);
    }
    Ok((create_handshake_packet(host, port, LOGIN_INTENT, protocol), create_login_start(PROBE_USERNAME, PROBE_UUID, protocol)))
}

/// The mode that goes into the report when a probe has ended: the mode that
/// the server showed, or unknown where the probe failed or ran out of time.
pub fn auth_outcome(result: Result<AuthMode, ProbeError>) -> (mode: AuthMode)
    ensures
        mode == match result {
            Ok(m) => m,
            Err(_) => AuthMode::Unknown,
        },
{
    match result {
        Ok(m) => m,
        Err(_) => AuthMode::Unknown,
    }
}

} // verus!
