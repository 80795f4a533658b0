use vstd::prelude::*;

use crate::version::Version;

verus! {

/// Synchronization source identifier: names the originator of the stream.
/// A wrapper over the raw 32-bit value so that it cannot be confused with a
/// contributing source identifier.
#[derive(Clone, Copy, Debug, PartialEq, Eq, Hash, Structural)]
pub struct SSRC(pub u32);

/// Contributing source identifier: names a source mixed into the stream.
#[derive(Clone, Copy, Debug, PartialEq, Eq, Hash, Structural)]
pub struct CSRC(pub u32);

/// A decoded header: the fixed fields of the wire format together with the
/// list of contributing sources, in wire order.
#[derive(Clone, Debug, PartialEq, Eq)]
pub struct Header {
    pub version: Version,
    pub has_padding: bool,
    pub has_extension: bool,
    pub has_marker: bool,
    pub payload_type: u8,
    pub sequence_number: u16,
    pub timestamp: u32,
    pub ssrc: SSRC,
    pub csrcs: Vec<CSRC>,
}

/// The mathematical model of a `Header`: the same fields, with the identifier
/// wrappers unwrapped to their raw 32-bit values and the contributing sources
/// as a sequence. Contracts and lemmas speak of this model.
#[verifier::ext_equal]
pub struct HeaderModel {
    pub version: Version,
    pub has_padding: bool,
    pub has_extension: bool,
    pub has_marker: bool,
    pub payload_type: u8,
    pub sequence_number: u16,
    pub timestamp: u32,
    pub ssrc: u32,
    pub csrcs: Seq<u32>,
}

impl View for Header {
    type V = HeaderModel;

    open spec fn view(&self) -> HeaderModel {
        HeaderModel {
            version: self.version,
            has_padding: self.has_padding,
            has_extension: self.has_extension,
            has_marker: self.has_marker,
            payload_type: self.payload_type,
            sequence_number: self.sequence_number,
            timestamp: self.timestamp,
            ssrc: self.ssrc.0,
            csrcs: self.csrcs@.map_values(|c: CSRC| c.0),
        }
    }
}

} // verus!
