use vstd::prelude::*;

verus! {

/// The protocol versions that the classification step recognizes in the 2-bit
/// version discriminant. The decoder accepts only `RTP2`; `RTP1` is recognized
/// as a structurally valid discriminant but is not decodable.
#[derive(Clone, Copy, Debug, PartialEq, Eq, Hash, Structural)]
pub enum Version {
    /// The first draft version of the protocol: known, but not accepted.
    RTP1,
    /// Protocol version 2, the only version the decoder accepts.
    RTP2,
}

/// Rejection at the classification layer itself: the raw discriminant is a
/// reserved or unknown value rather than any recognized version.
#[derive(Clone, Copy, Debug, PartialEq, Eq, Hash, Structural)]
pub enum VersionError {
    /// The discriminant names no recognized protocol version.
    Reserved,
}

/// What `Version::classify` returns for each raw discriminant: `1` and `2` are
/// the recognized versions; every other value is rejected as reserved.
pub open spec fn classify_spec(raw: u8) -> Result<Version, VersionError> {
    if raw == 1 {
        Ok(Version::RTP1)
    } else if raw == 2 {
        Ok(Version::RTP2)
    } else {
        Err(VersionError::Reserved)
    }
}

impl Version {
    /// Classify a raw version discriminant into a recognized version, or reject
    /// it as reserved. Whether a recognized version is actually decodable is a
    /// separate decision that belongs to the decoder.
    pub fn classify(raw: u8) -> (result: Result<Version, VersionError>)
        ensures
            result == classify_spec(raw),
    {
        if raw == 1 {
            Ok(Version::RTP1)
        } else if raw == 2 {
            Ok(Version::RTP2)
        } else {
            Err(VersionError::Reserved)
        }
    }
}

} // verus!
