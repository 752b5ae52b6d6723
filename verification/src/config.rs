//! The defaults of a scan.

use vstd::prelude::*;

verus! {

/// Seconds that a TCP connection may take to open.
pub const CONNECT_TIMEOUT_SECS: u64 = 3;

/// Seconds that the login probe waits for a packet that gives the mode away.
pub const AUTH_TIMEOUT_SECS: u64 = 3;

/// Seconds that the probe of one endpoint may take in all.
pub const SCAN_TIMEOUT_SECS: u64 = 10;

/// How many probes run at a time.
pub const MAX_CONCURRENT_SCANS: usize = 500;

/// The port of a server that names none.
pub const DEFAULT_PORT: u16 = 25565;

/// The protocol that the status handshake names: higher than any release,
/// so that the server answers with its own.
pub const STATUS_PROTOCOL_VERSION: i32 = 800;

/// The oldest protocol that the login probe speaks (release 1.8).
pub const MIN_PROTOCOL_VERSION: i32 = 47;

/// The longest host name, in bytes, that fits a handshake whatever else the
/// handshake holds.
pub const MAX_HOST_BYTES: usize = 0x7fff_ffed;

/// The name under which the login probe logs in.
pub const PROBE_USERNAME: &'static str = "popiiumaa";

/// The UUID that the login probe sends where the protocol asks for one.
pub const PROBE_UUID: &'static str = "00000000-0000-0000-0000-000000000000";

} // verus!
