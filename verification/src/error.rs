//! Error taxonomy of the disc library.

use vstd::prelude::*;

verus! {

/// Everything that can go wrong while reading, keying or decrypting a disc.
#[derive(Clone, Copy, Debug, PartialEq, Eq, Structural)]
pub enum DiscError {
    /// Bad magic value, or an inconsistent header or region table.
    Format,
    /// Key material (or a sector buffer) of the wrong length.
    Validation,
    /// A decrypt was attempted while no usable disc key is set.
    KeyRequired,
    /// Truncated input: fewer bytes than the fixed header needs.
    Io,
    /// A sector with no covering region; unreachable for any sector index
    /// below `total_sectors` of a well-formed region table.
    Internal,
}

impl DiscError {
    /// A short human-readable description, for callers that print errors.
    pub fn message(&self) -> &'static str {
        match self {
            DiscError::Format => "bad magic or inconsistent disc header",
            DiscError::Validation => "key material of the wrong length",
            DiscError::KeyRequired => "no usable disc key is set",
            DiscError::Io => "truncated input",
            DiscError::Internal => "sector outside every region",
        }
    }
}

} // verus!
