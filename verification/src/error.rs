//! Why a probe fails.

use vstd::prelude::*;
use vstd::string::StringExecFns;
use crate::chars::decimal_spec;
use crate::chars::decimal_text;

verus! {

/// A violation of the wire format.
#[derive(Clone, Copy, Debug, PartialEq, Eq, Structural)]
pub enum FramingError {
    /// The input ended inside a value.
    ShortRead,
    /// A fifth varint byte still carried the continuation flag.
    VarintTooLong,
    /// A length prefix was negative.
    BadLength,
    /// The bytes of a string were not UTF-8.
    InvalidUtf8,
}

/// Why a probe gave up.
#[derive(Clone, Copy, Debug, PartialEq, Eq, Structural)]
pub enum ProbeError {
    /// The connection could not be opened, or broke.
    Connect,
    /// The peer broke the wire format.
    Framing(FramingError),
    /// A compressed packet body was not a valid zlib stream.
    Decompression,
    /// A deadline elapsed.
    Timeout,
    /// The server speaks a protocol older than the login probe supports.
    UnsupportedProtocol(i32),
}

impl FramingError {
    /// The reason in words.
    pub open spec fn text(self) -> Seq<char> {
        match self {
            FramingError::ShortRead => "Incomplete packet"@,
            FramingError::VarintTooLong => "VarInt too long"@,
            FramingError::BadLength => "Invalid length"@,
            FramingError::InvalidUtf8 => "Invalid UTF-8 in string"@,
        }
    }

    /// Writes the reason in words.
    pub fn message(&self) -> (s: String)
        ensures
            s@ == self.text(),
    {
        match self {
            FramingError::ShortRead => "Incomplete packet".to_owned(),
            FramingError::VarintTooLong => "VarInt too long".to_owned(),
            FramingError::BadLength => "Invalid length".to_owned(),
            FramingError::InvalidUtf8 => "Invalid UTF-8 in string".to_owned(),
        }
    }
}

impl ProbeError {
    /// The reason in words.
    pub open spec fn text(self) -> Seq<char> {
        match self {
            ProbeError::Connect => "Connection failed"@,
            ProbeError::Framing(e) => e.text(),
            ProbeError::Decompression => "Decompression failed"@,
            ProbeError::Timeout => "Scan timeout"@,
            ProbeError::UnsupportedProtocol(protocol) => "Protocol version "@ + decimal_spec(
                protocol as int,
            ) + " too old (< 1.8)"@,
        }
    }

    /// Writes the reason in words.
    pub fn message(&self) -> (s: String)
        ensures
            s@ == self.text(),
    {
        match self {
            ProbeError::Connect => "Connection failed".to_owned(),
            ProbeError::Framing(e) => e.message(),
            ProbeError::Decompression => "Decompression failed".to_owned(),
            ProbeError::Timeout => "Scan timeout".to_owned(),
            ProbeError::UnsupportedProtocol(protocol) => {
                let mut s = "Protocol version ".to_owned();
                let number = decimal_text(*protocol);
                s.append(number.as_str());
                s.append(" too old (< 1.8)");
                s
            },
        }
    }
}

} // verus!
