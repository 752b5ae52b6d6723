use mc_probe::error::FramingError;
use mc_probe::error::ProbeError;

#[test]
fn framing_error_messages() {
    assert_eq!(FramingError::ShortRead.message(), "Incomplete packet");
    assert_eq!(FramingError::VarintTooLong.message(), "VarInt too long");
    assert_eq!(FramingError::BadLength.message(), "Invalid length");
    assert_eq!(FramingError::InvalidUtf8.message(), "Invalid UTF-8 in string");
}

#[test]
fn probe_error_messages() {
    assert_eq!(ProbeError::Connect.message(), "Connection failed");
    assert_eq!(ProbeError::Framing(FramingError::VarintTooLong).message(), "VarInt too long");
    assert_eq!(ProbeError::Framing(FramingError::ShortRead).message(), "Incomplete packet");
    assert_eq!(ProbeError::Decompression.message(), "Decompression failed");
    assert_eq!(ProbeError::Timeout.message(), "Scan timeout");
    assert_eq!(ProbeError::UnsupportedProtocol(5).message(), "Protocol version 5 too old (< 1.8)");
    assert_eq!(ProbeError::UnsupportedProtocol(46).message(), "Protocol version 46 too old (< 1.8)");
    assert_eq!(ProbeError::UnsupportedProtocol(-1).message(), "Protocol version -1 too old (< 1.8)");
}
