use rtp_header::decode;
use rtp_header::header::{CSRC, SSRC};
use rtp_header::version::{Version, VersionError};
use rtp_header::DecodeError;

// byte 0 = 0x02: version bits (low two) = 2, no padding, no extension,
// CSRC count (high nibble) = 0; byte 1 = 0x00: no marker, payload type 0;
// sequence number 1, timestamp 2, SSRC 3.
const FIXED: [u8; 12] = [0x02, 0x00, 0x00, 0x01, 0x00, 0x00, 0x00, 0x02, 0x00, 0x00, 0x00, 0x03];

#[test]
fn fixed_header_no_csrcs() {
    let header = decode(&FIXED).unwrap();
    assert_eq!(header.version, Version::RTP2);
    assert!(!header.has_padding);
    assert!(!header.has_extension);
    assert!(!header.has_marker);
    assert_eq!(header.payload_type, 0);
    assert_eq!(header.sequence_number, 1);
    assert_eq!(header.timestamp, 2);
    assert_eq!(header.ssrc, SSRC(3));
    assert_eq!(header.csrcs, vec![]);
}

#[test]
fn one_csrc() {
    // Same as the fixed example, but with CSRC count 1 and one extra group.
    let mut bytes = FIXED.to_vec();
    bytes[0] = 0x12;
    bytes.extend_from_slice(&[0x00, 0x00, 0x00, 0x09]);
    let header = decode(&bytes).unwrap();
    assert_eq!(header.version, Version::RTP2);
    assert_eq!(header.sequence_number, 1);
    assert_eq!(header.timestamp, 2);
    assert_eq!(header.ssrc, SSRC(3));
    assert_eq!(header.csrcs, vec![CSRC(9)]);
}

#[test]
fn csrcs_in_wire_order() {
    let mut bytes = FIXED.to_vec();
    bytes[0] = 0x22;
    bytes.extend_from_slice(&[0xde, 0xad, 0xbe, 0xef, 0x00, 0x00, 0x01, 0x00]);
    let header = decode(&bytes).unwrap();
    assert_eq!(header.csrcs, vec![CSRC(0xdead_beef), CSRC(0x100)]);
}

#[test]
fn maximum_csrc_count() {
    let mut bytes = FIXED.to_vec();
    bytes[0] = 0xf2;
    for i in 0..15u8 {
        bytes.extend_from_slice(&[0x00, 0x00, 0x00, i]);
    }
    assert_eq!(bytes.len(), 72);
    let header = decode(&bytes).unwrap();
    assert_eq!(header.csrcs.len(), 15);
    for i in 0..15usize {
        assert_eq!(header.csrcs[i], CSRC(i as u32));
    }
}

#[test]
fn big_endian_fields_exact() {
    let bytes = [
        0x02, 0x00, 0xab, 0xcd, 0x01, 0x02, 0x03, 0x04, 0xde, 0xad, 0xbe, 0xef,
    ];
    let header = decode(&bytes).unwrap();
    assert_eq!(header.sequence_number, 0xabcd);
    assert_eq!(header.timestamp, 0x0102_0304);
    assert_eq!(header.ssrc, SSRC(0xdead_beef));
}

#[test]
fn marker_and_payload_type_bits() {
    let mut bytes = FIXED;
    bytes[1] = 0xff;
    let header = decode(&bytes).unwrap();
    assert!(header.has_marker);
    assert_eq!(header.payload_type, 127);
}

#[test]
fn empty_input_is_eof() {
    assert_eq!(decode(&[]), Err(DecodeError::UnexpectedEOF));
}

#[test]
fn short_fixed_header_is_eof() {
    for len in 1..12usize {
        assert_eq!(decode(&FIXED[..len]), Err(DecodeError::UnexpectedEOF));
    }
}

#[test]
fn truncated_csrc_is_eof() {
    let mut bytes = FIXED.to_vec();
    bytes[0] = 0x12;
    bytes.extend_from_slice(&[0x00, 0x00, 0x00, 0x09]);
    assert!(decode(&bytes).is_ok());
    assert_eq!(decode(&bytes[..15]), Err(DecodeError::UnexpectedEOF));
}

#[test]
fn known_other_version_is_unsupported() {
    // Version bits 1: recognized by classification, rejected by the decoder.
    let mut bytes = FIXED;
    bytes[0] = 0x01;
    assert_eq!(decode(&bytes), Err(DecodeError::UnsupportedVersion));
}

#[test]
fn reserved_version_is_version_error() {
    for raw in [0x00u8, 0x03] {
        let mut bytes = FIXED;
        bytes[0] = raw;
        assert_eq!(
            decode(&bytes),
            Err(DecodeError::Version(VersionError::Reserved))
        );
    }
}

#[test]
fn flag_bits_toggle_independently() {
    let base = decode(&FIXED).unwrap();
    for (bit0_mask, bit1_mask) in [(0x04u8, 0x00u8), (0x08, 0x00), (0x00, 0x01), (0x0c, 0x01)] {
        let mut bytes = FIXED;
        bytes[0] |= bit0_mask;
        bytes[1] |= bit1_mask;
        let header = decode(&bytes).unwrap();
        assert_eq!(header.has_padding, bit0_mask & 0x04 != 0);
        assert_eq!(header.has_extension, bit0_mask & 0x08 != 0);
        assert_eq!(header.has_marker, bit1_mask & 0x01 != 0);
        assert_eq!(header.version, base.version);
        assert_eq!(header.payload_type, base.payload_type);
        assert_eq!(header.sequence_number, base.sequence_number);
        assert_eq!(header.timestamp, base.timestamp);
        assert_eq!(header.ssrc, base.ssrc);
        assert_eq!(header.csrcs, base.csrcs);
    }
}

#[test]
fn trailing_bytes_are_ignored() {
    let base = decode(&FIXED).unwrap();
    let mut bytes = FIXED.to_vec();
    bytes.extend_from_slice(&[0xff, 0x13, 0x37]);
    assert_eq!(decode(&bytes), Ok(base));

    let mut with_csrc = FIXED.to_vec();
    with_csrc[0] = 0x12;
    with_csrc.extend_from_slice(&[0x00, 0x00, 0x00, 0x09]);
    let expected = decode(&with_csrc).unwrap();
    with_csrc.extend_from_slice(&[0xaa; 9]);
    assert_eq!(decode(&with_csrc), Ok(expected));
}
