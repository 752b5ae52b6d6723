use std::io::Write;

use mc_probe::auth::auth_outcome;
use mc_probe::auth::login_packets;
use mc_probe::auth::AuthMode;
use mc_probe::auth::AuthProbe;
use mc_probe::auth::AuthStep;
use mc_probe::codec::encode_string;
use mc_probe::codec::frame_body_len;
use mc_probe::codec::frame_packet;
use mc_probe::error::ProbeError;
use mc_probe::report::plan_auth;
use mc_probe::report::AuthPlan;
use mc_probe::report::Player;
use mc_probe::report::ScanResult;
use mc_probe::status::status_json;
use mc_probe::status::status_packets;
use mc_probe::status::PlayerSample;
use mc_probe::status::PlayersInfo;
use mc_probe::status::ServerResponse;
use mc_probe::status::VersionInfo;
use mc_probe::text::ChatComponent;
use mc_probe::varint::encode_varint;
use mc_probe::varint::VarintReader;
use mc_probe::varint::VarintStep;

const HOST: &str = "127.0.0.1";
const PORT: u16 = 25565;
const VANILLA: &str = "{\"version\":{\"name\":\"1.20.1\",\"protocol\":763},\"players\":{\"max\":20,\"online\":3,\"sample\":[{\"name\":\"alice\",\"id\":\"00000000-0000-0000-0000-000000000001\"}]},\"description\":{\"text\":\"\u{a7}aHello \u{a7}bWorld\"},\"favicon\":\"data:image/png;base64,AAA=\"}";

/// What a server has sent, read from the front as a socket would be.
struct Wire {
    bytes: Vec<u8>,
    at: usize,
    hangs: bool,
}

impl Wire {
    fn closed_after(bytes: Vec<u8>) -> Wire {
        Wire { bytes, at: 0, hangs: false }
    }

    fn silent_after(bytes: Vec<u8>) -> Wire {
        Wire { bytes, at: 0, hangs: true }
    }

    fn end(&self) -> ProbeError {
        if self.hangs {
            ProbeError::Timeout
        } else {
            ProbeError::Connect
        }
    }

    fn read_u8(&mut self) -> Result<u8, ProbeError> {
        match self.bytes.get(self.at) {
            Some(b) => {
                self.at += 1;
                Ok(*b)
            }
            None => Err(self.end()),
        }
    }

    fn read_exact(&mut self, len: usize) -> Result<Vec<u8>, ProbeError> {
        if self.bytes.len() - self.at < len {
            return Err(self.end());
        }
        let body = self.bytes[self.at..self.at + len].to_vec();
        self.at += len;
        Ok(body)
    }

    fn read_varint(&mut self) -> Result<i32, ProbeError> {
        let mut reader = VarintReader::new();
        loop {
            match reader.push(self.read_u8()?) {
                VarintStep::NeedMore => continue,
                VarintStep::Done(value) => return Ok(value),
                VarintStep::Failed(e) => return Err(ProbeError::Framing(e)),
            }
        }
    }
}

fn chat(value: &serde_json::Value) -> ChatComponent {
    match value {
        serde_json::Value::String(s) => ChatComponent::Text(s.clone()),
        serde_json::Value::Array(items) => ChatComponent::Array(items.iter().map(chat).collect()),
        serde_json::Value::Object(fields) => ChatComponent::Object {
            text: fields.get("text").map(|v| Box::new(chat(v))),
            extra: fields.get("extra").map(|v| Box::new(chat(v))),
        },
        _ => ChatComponent::Other,
    }
}

fn document(json: &[u8]) -> Result<ServerResponse, String> {
    let value: serde_json::Value = serde_json::from_slice(json).map_err(|e| e.to_string())?;
    Ok(ServerResponse {
        version: value.get("version").map(|v| VersionInfo {
            name: v["name"].as_str().unwrap().to_string(),
            protocol: v["protocol"].as_i64().unwrap() as i32,
        }),
        players: value.get("players").map(|p| PlayersInfo {
            max: p["max"].as_i64().unwrap() as i32,
            online: p["online"].as_i64().unwrap() as i32,
            sample: p.get("sample").map(|list| {
                list.as_array()
                    .unwrap()
                    .iter()
                    .map(|s| PlayerSample {
                        name: s["name"].as_str().unwrap().to_string(),
                        id: s["id"].as_str().unwrap().to_string(),
                    })
                    .collect()
            }),
        }),
        description: value.get("description").map(chat),
        favicon: value.get("favicon").map(|f| f.as_str().unwrap().to_string()),
    })
}

fn status_dialogue(wire: &mut Wire) -> Result<ServerResponse, String> {
    let (handshake, request) = status_packets(HOST, PORT).map_err(|e| e.message())?;
    assert_eq!(request, vec![0x01, 0x00]);
    assert_eq!(handshake[0] as usize, handshake.len() - 1);
    let total = wire.read_varint().map_err(|e| e.message())?;
    let len = frame_body_len(total).map_err(|e| e.message())?;
    let payload = wire.read_exact(len).map_err(|e| e.message())?;
    let json = status_json(&payload).map_err(|e| e.message())?;
    document(&json)
}

fn login_dialogue(wire: &mut Wire, protocol: i32) -> Result<AuthMode, ProbeError> {
    login_packets(HOST, PORT, protocol)?;
    let mut probe = AuthProbe::new();
    loop {
        let total = wire.read_varint()?;
        let len = match AuthProbe::body_len(total) {
            Some(len) => len,
            None => continue,
        };
        let body = wire.read_exact(len)?;
        match probe.on_body(&body) {
            AuthStep::Continue => continue,
            AuthStep::Classified(mode) => return Ok(mode),
            AuthStep::Failed(e) => return Err(e),
        }
    }
}

fn scan(mut status: Wire, mut login: Wire, check_auth: bool) -> ScanResult {
    let response = match status_dialogue(&mut status) {
        Ok(response) => response,
        Err(reason) => return ScanResult::failed(HOST.to_string(), PORT, reason),
    };
    let mut result = ScanResult::from_status(HOST.to_string(), PORT, &response);
    match plan_auth(check_auth, result.protocol) {
        AuthPlan::Skip => {}
        AuthPlan::Unknown => result.set_auth_mode(AuthMode::Unknown),
        AuthPlan::Probe(protocol) => result.set_auth_mode(auth_outcome(login_dialogue(&mut login, protocol))),
    }
    result
}

fn status_wire(json: &str) -> Wire {
    let mut payload = vec![0x00];
    payload.extend(encode_string(json));
    Wire::closed_after(frame_packet(&payload))
}

fn deflate(data: &[u8]) -> Vec<u8> {
    let mut encoder = flate2::write::ZlibEncoder::new(Vec::new(), flate2::Compression::default());
    encoder.write_all(data).unwrap();
    encoder.finish().unwrap()
}

fn kick(reason: &str) -> Vec<u8> {
    let mut payload = vec![0x00];
    payload.extend(encode_string(reason));
    frame_packet(&payload)
}

fn vanilla_report(auth_mode: Option<i32>) -> ScanResult {
    ScanResult {
        ip: HOST.to_string(),
        port: PORT,
        motd: Some("Hello World".to_string()),
        version: Some("1.20.1".to_string()),
        protocol: Some(763),
        max_players: Some(20),
        online_players: Some(3),
        players: Some(vec![Player {
            name: "alice".to_string(),
            uuid: "00000000-0000-0000-0000-000000000001".to_string(),
        }]),
        favicon: Some("data:image/png;base64,AAA=".to_string()),
        auth_mode,
        error: None,
    }
}

#[test]
fn scenario_status_only() {
    let result = scan(status_wire(VANILLA), Wire::closed_after(vec![]), false);
    assert_eq!(result, vanilla_report(None));
}

#[test]
fn scenario_premium_server() {
    let login = Wire::closed_after(frame_packet(&[0x01, 0x00, 0x02, 0xaa, 0xbb, 0x01, 0xcc]));
    let result = scan(status_wire(VANILLA), login, true);
    assert_eq!(result, vanilla_report(Some(1)));
}

#[test]
fn scenario_cracked_server() {
    let mut payload = vec![0x02];
    payload.extend([0u8; 16]);
    payload.extend(encode_string("popiiumaa"));
    let result = scan(status_wire(VANILLA), Wire::closed_after(frame_packet(&payload)), true);
    assert_eq!(result, vanilla_report(Some(0)));
}

#[test]
fn scenario_whitelist_kick() {
    let login = Wire::closed_after(kick("{\"text\":\"You are not whitelisted on this server!\"}"));
    let result = scan(status_wire(VANILLA), login, true);
    assert_eq!(result, vanilla_report(Some(2)));
}

#[test]
fn scenario_kick_for_another_reason() {
    let login = Wire::closed_after(kick("{\"text\":\"Server is full\"}"));
    let result = scan(status_wire(VANILLA), login, true);
    assert_eq!(result, vanilla_report(Some(2)));
}

#[test]
fn scenario_compression_transition() {
    let mut set_compression = vec![0x03];
    set_compression.extend(encode_varint(256));
    let mut success = vec![0x02];
    success.extend([0u8; 16]);
    success.extend(encode_string("popiiumaa"));
    let mut body = encode_varint(success.len() as i32);
    body.extend(deflate(&success));
    let mut sent = frame_packet(&set_compression);
    sent.extend(frame_packet(&body));
    let result = scan(status_wire(VANILLA), Wire::closed_after(sent), true);
    assert_eq!(result, vanilla_report(Some(0)));
}

#[test]
fn scenario_compression_transition_with_a_plain_body() {
    let mut set_compression = vec![0x03];
    set_compression.extend(encode_varint(256));
    let mut sent = frame_packet(&[0x04, 0x00]);
    sent.extend(frame_packet(&set_compression));
    sent.extend(frame_packet(&[0x00, 0x04, 0x01]));
    sent.extend(frame_packet(&[0x00, 0x01]));
    let result = scan(status_wire(VANILLA), Wire::closed_after(sent), true);
    assert_eq!(result, vanilla_report(Some(1)));
}

#[test]
fn scenario_compressed_packet_without_the_transition_is_misread() {
    let mut body = encode_varint(1);
    body.extend(deflate(&[0x02]));
    let result = scan(status_wire(VANILLA), Wire::closed_after(frame_packet(&body)), true);
    assert_eq!(result, vanilla_report(Some(1)));
}

#[test]
fn scenario_auth_timeout() {
    let result = scan(status_wire(VANILLA), Wire::silent_after(vec![]), true);
    assert_eq!(result, vanilla_report(Some(-1)));
    assert_eq!(result.error, None);
}

#[test]
fn scenario_server_closes_during_login() {
    let result = scan(status_wire(VANILLA), Wire::closed_after(vec![0x05, 0x04]), true);
    assert_eq!(result, vanilla_report(Some(-1)));
}

#[test]
fn scenario_empty_packets_are_passed_over() {
    let mut sent = vec![0x00, 0x00];
    sent.extend(encode_varint(-1));
    sent.extend(frame_packet(&[0x02]));
    let result = scan(status_wire(VANILLA), Wire::closed_after(sent), true);
    assert_eq!(result, vanilla_report(Some(0)));
}

#[test]
fn scenario_corrupt_compressed_packet() {
    let mut set_compression = vec![0x03];
    set_compression.extend(encode_varint(0));
    let mut sent = frame_packet(&set_compression);
    sent.extend(frame_packet(&[0x09, 0x01, 0x02, 0x03]));
    sent.extend(frame_packet(&[0x00, 0x01]));
    let result = scan(status_wire(VANILLA), Wire::closed_after(sent), true);
    assert_eq!(result, vanilla_report(Some(-1)));
    assert_eq!(result.error, None);
}

#[test]
fn scenario_old_server_is_not_probed() {
    let json = "{\"version\":{\"name\":\"1.7.10\",\"protocol\":5},\"description\":\"Old\"}";
    let login = Wire::closed_after(frame_packet(&[0x01]));
    let result = scan(status_wire(json), login, true);
    assert_eq!(result.protocol, Some(5));
    assert_eq!(result.motd, Some("Old".to_string()));
    assert_eq!(result.auth_mode, Some(-1));
    assert_eq!(result.error, None);
}

#[test]
fn scenario_status_without_a_version() {
    let login = Wire::closed_after(frame_packet(&[0x01]));
    let result = scan(status_wire("{\"description\":[\"a\",{\"text\":\"b\"}]}"), login, true);
    assert_eq!(result.version, None);
    assert_eq!(result.motd, Some("ab".to_string()));
    assert_eq!(result.auth_mode, Some(-1));
    let unasked = scan(status_wire("{}"), Wire::closed_after(vec![]), false);
    assert_eq!(unasked, ScanResult::new(HOST.to_string(), PORT));
}

#[test]
fn scenario_status_failure_carries_the_reason_alone() {
    let cut = Wire::closed_after(vec![0x10, 0x00, 0x05]);
    let result = scan(cut, Wire::closed_after(frame_packet(&[0x01])), true);
    assert_eq!(result, ScanResult::failed(HOST.to_string(), PORT, "Connection failed".to_string()));
    let overlong = Wire::closed_after(vec![0x80, 0x80, 0x80, 0x80, 0x80, 0x01]);
    let result = scan(overlong, Wire::closed_after(vec![]), true);
    assert_eq!(result.error, Some("VarInt too long".to_string()));
    assert_eq!(result.auth_mode, None);
    let short = Wire::closed_after(frame_packet(&[0x00, 0x09, 0x7b]));
    let result = scan(short, Wire::closed_after(vec![]), true);
    assert_eq!(result.error, Some("Incomplete packet".to_string()));
    let negative = Wire::closed_after(encode_varint(-4));
    let result = scan(negative, Wire::closed_after(vec![]), true);
    assert_eq!(result.error, Some("Invalid length".to_string()));
    let not_json = scan(status_wire("{not json"), Wire::closed_after(vec![]), true);
    assert!(not_json.error.is_some());
    assert_eq!(not_json.version, None);
    assert_eq!(not_json.auth_mode, None);
}
