use vstd::prelude::*;

use crate::header::Header;
use crate::header::HeaderModel;
use crate::header::CSRC;
use crate::header::SSRC;
use crate::version::classify_spec;
use crate::version::Version;
use crate::version::VersionError;

verus! {

/// Why a decode failed. The set is open for extension: callers outside this
/// crate should match it with a fallback arm rather than exhaustively.
#[derive(Clone, Copy, Debug, Eq, Hash, PartialEq, Structural)]
#[non_exhaustive]
pub enum DecodeError {
    /// The classification layer itself rejected the raw version discriminant.
    Version(VersionError),
    /// Fewer bytes were available than the field being read required.
    UnexpectedEOF,
    /// The version discriminant named a recognized version other than the one
    /// the decoder accepts.
    UnsupportedVersion,
}

impl From<VersionError> for DecodeError {
    fn from(value: VersionError) -> (result: Self) {
        DecodeError::Version(value)
    }
}

impl vstd::std_specs::convert::FromSpecImpl<VersionError> for DecodeError {
    open spec fn obeys_from_spec() -> bool {
        true
    }

    open spec fn from_spec(value: VersionError) -> Self {
        DecodeError::Version(value)
    }
}

/// The two bytes at `hi`, `lo` read as one big-endian 16-bit integer.
pub open spec fn be16(hi: u8, lo: u8) -> u16 {
    ((hi as u16) << 8) | (lo as u16)
}

/// The four bytes `b0`..`b3` read as one big-endian 32-bit integer.
pub open spec fn be32(b0: u8, b1: u8, b2: u8, b3: u8) -> u32 {
    ((b0 as u32) << 24) | ((b1 as u32) << 16) | ((b2 as u32) << 8) | (b3 as u32)
}

/// How many bytes a complete header occupies, given byte 0 of the input: the
/// 12 fixed bytes plus one 4-byte group per contributing source counted in the
/// high nibble.
pub open spec fn wire_len(byte0: u8) -> int {
    12 + 4 * (byte0 >> 4)
}

/// The contributing source values encoded from byte 12 of `s` on, in wire
/// order, with the count taken from the high nibble of byte 0.
pub open spec fn csrcs_spec(s: Seq<u8>) -> Seq<u32> {
    Seq::new(
        (s[0] >> 4) as nat,
        |k: int| be32(s[12 + 4 * k], s[13 + 4 * k], s[14 + 4 * k], s[15 + 4 * k]),
    )
}

/// What `decode` returns for every input `s`:
/// - with no byte to read, `UnexpectedEOF`;
/// - when the classification layer rejects the low two bits of byte 0, that
///   rejection, wrapped;
/// - when classification recognizes a version other than `RTP2`,
///   `UnsupportedVersion`;
/// - when fewer bytes remain than the fixed header and the counted
///   contributing sources need, `UnexpectedEOF`;
/// - otherwise the header assembled from the wire format, leaving any bytes
///   past the last contributing source unread.
pub open spec fn decode_spec(s: Seq<u8>) -> Result<HeaderModel, DecodeError> {
    if s.len() < 1 {
        Err(DecodeError::UnexpectedEOF)
    } else {
        match classify_spec(s[0] & 0x3) {
            Err(e) => Err(DecodeError::Version(e)),
            Ok(v) => if v != Version::RTP2 {
                Err(DecodeError::UnsupportedVersion)
            } else if s.len() < wire_len(s[0]) {
                Err(DecodeError::UnexpectedEOF)
            } else {
                Ok(
                    HeaderModel {
                        version: Version::RTP2,
                        has_padding: s[0] & 0x4 != 0,
                        has_extension: s[0] & 0x8 != 0,
                        has_marker: s[1] & 0x1 != 0,
                        payload_type: s[1] >> 1,
                        sequence_number: be16(s[2], s[3]),
                        timestamp: be32(s[4], s[5], s[6], s[7]),
                        ssrc: be32(s[8], s[9], s[10], s[11]),
                        csrcs: csrcs_spec(s),
                    },
                )
            },
        }
    }
}

/// Read the two bytes at `offset` as one big-endian 16-bit integer.
fn read_u16_be(buffer: &[u8], offset: usize) -> (result: u16)
    requires
        offset + 2 <= buffer@.len(),
    ensures
        result == be16(buffer@[offset as int], buffer@[offset as int + 1]),
{
    ((buffer[offset] as u16) << 8) | (buffer[offset + 1] as u16)
}

/// Read the four bytes at `offset` as one big-endian 32-bit integer.
fn read_u32_be(buffer: &[u8], offset: usize) -> (result: u32)
    requires
        offset + 4 <= buffer@.len(),
    ensures
        result == be32(
            buffer@[offset as int],
            buffer@[offset as int + 1],
            buffer@[offset as int + 2],
            buffer@[offset as int + 3],
        ),
{
    ((buffer[offset] as u32) << 24) | ((buffer[offset + 1] as u32) << 16) | ((buffer[offset + 2]
        as u32) << 8) | (buffer[offset + 3] as u32)
}

/// Decode a header from the front of `buffer`, returning exactly what
/// `decode_spec` says for these bytes: the fully assembled header on success,
/// or the first classified failure. Bytes after the last required contributing
/// source are never inspected.
pub fn decode(buffer: &[u8]) -> (result: Result<Header, DecodeError>)
    ensures
        match result {
            Ok(header) => decode_spec(buffer@) == Ok::<HeaderModel, DecodeError>(header@),
            Err(error) => decode_spec(buffer@) == Err::<HeaderModel, DecodeError>(error),
        },
{
    if buffer.len() < 1 {
        return Err(DecodeError::UnexpectedEOF);
    }
    let byte0: u8 = buffer[0];
    let classified = match Version::classify(byte0 & 0x3) {
        Ok(v) => v,
        Err(error) => return Err(DecodeError::from(error)),
    };
    let version = match classified {
        Version::RTP2 => Version::RTP2,
        _ => return Err(DecodeError::UnsupportedVersion),
    };
    let has_padding = byte0 & 0x4 > 0;
    let has_extension = byte0 & 0x8 > 0;
    let csrc_count: u8 = byte0 >> 4;
    proof {
        assert(byte0 >> 4 < 16) by (bit_vector);
    }
    if buffer.len() < 2 {
        return Err(DecodeError::UnexpectedEOF);
    }
    let byte1: u8 = buffer[1];
    let has_marker = byte1 & 0x1 > 0;
    let payload_type: u8 = byte1 >> 1;
    if buffer.len() < 4 {
        return Err(DecodeError::UnexpectedEOF);
    }
    let sequence_number: u16 = read_u16_be(buffer, 2);
    if buffer.len() < 8 {
        return Err(DecodeError::UnexpectedEOF);
    }
    let timestamp: u32 = read_u32_be(buffer, 4);
    if buffer.len() < 12 {
        return Err(DecodeError::UnexpectedEOF);
    }
    let ssrc = SSRC(read_u32_be(buffer, 8));
    let mut csrcs: Vec<CSRC> = Vec::new();
    let mut index: usize = 0;
    while index < csrc_count as usize
        invariant
            buffer@.len() >= 12,
            csrc_count == buffer@[0] >> 4,
            csrc_count < 16,
            classify_spec(buffer@[0] & 0x3) == Ok::<Version, VersionError>(Version::RTP2),
            index <= csrc_count as usize,
            buffer@.len() >= 12 + 4 * index,
            csrcs@.len() == index,
            forall|k: int|
                0 <= k < index ==> csrcs@[k] == CSRC(
                    be32(
                        buffer@[12 + 4 * k],
                        buffer@[13 + 4 * k],
                        buffer@[14 + 4 * k],
                        buffer@[15 + 4 * k],
                    ),
                ),
        decreases csrc_count as int - index as int,
    {
        if buffer.len() < 12 + 4 * (index + 1) {
            return Err(DecodeError::UnexpectedEOF);
        }
        let value: u32 = read_u32_be(buffer, 12 + 4 * index);
        csrcs.push(CSRC(value));
        index += 1;
    }
    let header = Header {
        version,
        has_padding,
        has_extension,
        has_marker,
        payload_type,
        sequence_number,
        timestamp,
        ssrc,
        csrcs,
    };
    proof {
        assert(header@.csrcs =~= csrcs_spec(buffer@)) by {
            assert forall|k: int| 0 <= k < header@.csrcs.len() implies header@.csrcs[k]
                == csrcs_spec(buffer@)[k] by {
                assert(header@.csrcs[k] == header.csrcs@[k].0);
            }
        }
    }
    Ok(header)
}

/// Every input whose version bits classify as `RTP2` and that is long enough
/// for its counted contributing sources decodes successfully, and the decoded
/// contributing sources are exactly the 4-byte big-endian groups from byte 12
/// on, in wire order.
pub proof fn lemma_complete_input_decodes(s: Seq<u8>)
    requires
        s.len() >= 1,
        classify_spec(s[0] & 0x3) == Ok::<Version, VersionError>(Version::RTP2),
        s.len() >= wire_len(s[0]),
    ensures
        decode_spec(s) is Ok,
        decode_spec(s)->Ok_0.csrcs.len() == s[0] >> 4,
        forall|k: int|
            0 <= k < (s[0] >> 4) ==> decode_spec(s)->Ok_0.csrcs[k] == be32(
                s[12 + 4 * k],
                s[13 + 4 * k],
                s[14 + 4 * k],
                s[15 + 4 * k],
            ),
{
}

/// An input shorter than the 12-byte fixed header decodes to `UnexpectedEOF`.
/// The version bits are read before any length check, so this holds of the
/// inputs whose byte 0, if present, classifies as `RTP2`; on other short
/// inputs the version takes precedence and decode fails at that step instead.
pub proof fn lemma_short_fixed_header_eof(s: Seq<u8>)
    requires
        s.len() < 12,
        s.len() >= 1 ==> classify_spec(s[0] & 0x3) == Ok::<Version, VersionError>(Version::RTP2),
    ensures
        decode_spec(s) == Err::<HeaderModel, DecodeError>(DecodeError::UnexpectedEOF),
{
}

/// When classification recognizes the version bits as a known version other
/// than `RTP2`, decode fails with `UnsupportedVersion` — not with the
/// classification layer's own error, and regardless of the input's length.
pub proof fn lemma_known_other_version_unsupported(s: Seq<u8>, v: Version)
    requires
        s.len() >= 1,
        classify_spec(s[0] & 0x3) == Ok::<Version, VersionError>(v),
        v != Version::RTP2,
    ensures
        decode_spec(s) == Err::<HeaderModel, DecodeError>(DecodeError::UnsupportedVersion),
{
}

/// Dropping the last byte of an input of exactly the required length turns a
/// successful decode into `UnexpectedEOF`, even though the fixed header at the
/// front is intact: the loss is only discovered at the final contributing
/// source (or, with none counted, at the fixed header's own tail).
pub proof fn lemma_truncated_input_eof(s: Seq<u8>)
    requires
        decode_spec(s) is Ok,
        s.len() == wire_len(s[0]),
    ensures
        decode_spec(s.take(s.len() - 1)) == Err::<HeaderModel, DecodeError>(
            DecodeError::UnexpectedEOF,
        ),
{
    let t = s.take(s.len() - 1);
    assert(t[0] == s[0]);
    assert(t.len() < wire_len(t[0]));
}

/// Bytes after the last counted contributing source are ignored: appending
/// anything to a successfully decoding input never causes failure and leaves
/// every decoded field unchanged.
pub proof fn lemma_trailing_bytes_ignored(s: Seq<u8>, extra: Seq<u8>)
    requires
        decode_spec(s) is Ok,
    ensures
        decode_spec(s + extra) == decode_spec(s),
{
    let t = s + extra;
    assert(s.len() >= wire_len(s[0]));
    assert(t[0] == s[0]);
    assert forall|i: int| 0 <= i < s.len() implies t[i] == s[i] by {}
    assert(csrcs_spec(t) =~= csrcs_spec(s));
    assert(decode_spec(t)->Ok_0 =~= decode_spec(s)->Ok_0);
}

/// The three flag bits are independent of everything else: rewriting bits 2
/// and 3 of byte 0 and bit 0 of byte 1 of a successfully decoding input — and
/// nothing else — still decodes, steers exactly `has_padding`,
/// `has_extension` and `has_marker`, and leaves every other decoded field as
/// it was.
pub proof fn lemma_flag_bits_independent(s: Seq<u8>, b0: u8, b1: u8)
    requires
        decode_spec(s) is Ok,
        b0 & 0xf3 == s[0] & 0xf3,
        b1 & 0xfe == s[1] & 0xfe,
    ensures
        ({
            let h = decode_spec(s)->Ok_0;
            let flipped = decode_spec(s.update(0, b0).update(1, b1));
            &&& flipped is Ok
            &&& flipped->Ok_0.has_padding == (b0 & 0x4 != 0)
            &&& flipped->Ok_0.has_extension == (b0 & 0x8 != 0)
            &&& flipped->Ok_0.has_marker == (b1 & 0x1 != 0)
            &&& flipped->Ok_0.version == h.version
            &&& flipped->Ok_0.payload_type == h.payload_type
            &&& flipped->Ok_0.sequence_number == h.sequence_number
            &&& flipped->Ok_0.timestamp == h.timestamp
            &&& flipped->Ok_0.ssrc == h.ssrc
            &&& flipped->Ok_0.csrcs == h.csrcs
        }),
{
    let s0 = s[0];
    let s1 = s[1];
    let t = s.update(0, b0).update(1, b1);
    assert(b0 & 0x3 == s0 & 0x3 && b0 >> 4 == s0 >> 4) by (bit_vector)
        requires
            b0 & 0xf3 == s0 & 0xf3,
    ;
    assert(b1 >> 1 == s1 >> 1) by (bit_vector)
        requires
            b1 & 0xfe == s1 & 0xfe,
    ;
    assert(s.len() >= wire_len(s0));
    assert(t[0] == b0 && t[1] == b1);
    assert(csrcs_spec(t) =~= csrcs_spec(s));
    assert(decode_spec(t) is Ok);
}

} // verus!
