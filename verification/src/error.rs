//! Typed errors for the container codec.

use vstd::prelude::*;

verus! {

/// Why a byte buffer was rejected.
///
/// Every variant carries the numbers needed for a precise diagnostic; no
/// operation of the codec ever panics on malformed input.
#[derive(Clone, Copy, Debug, PartialEq, Eq, Structural)]
pub enum FormatError {
    /// The first 12 bytes do not match the container's magic identifier.
    BadMagic,
    /// The buffer is shorter than a fixed-size structure that was about to be
    /// read (header, data format descriptor, or level index).  `needed` is
    /// how many bytes that structure requires, `actual` how many were there.
    Truncated { needed: u64, actual: u64 },
    /// A declared (offset, length) pair lies outside the valid range of the
    /// buffer: it either starts before the structure it must follow or would
    /// read past the end of the buffer.
    OffsetOutOfRange { offset: u64, length: u64, buffer_len: u64 },
    /// A declared byte length disagrees with the length implied elsewhere:
    /// either an uncompressed level's `byteLength` differs from its
    /// `uncompressedByteLength`, or a level's length differs from
    /// width × height × bytesPerTexel at that mip scale.  `expected`
    /// saturates at `u64::MAX`.
    SizeMismatch { level: u32, expected: u64, actual: u64 },
    /// The level index is internally inconsistent: it reports data for a
    /// level whose sliced region would be empty.
    CorruptIndex { level: u32 },
    /// The level is wrapped in a supercompression scheme this codec does not
    /// decode, so its raw bytes cannot be handed out as texels.
    UnsupportedScheme { scheme: u32 },
}

impl FormatError {
    /// A short description of the error kind, for diagnostics.
    pub fn describe(&self) -> (r: &'static str)
        ensures
            r@.len() > 0,
    {
        let r = match self {
            FormatError::BadMagic => "first 12 bytes do not match the KTX2 identifier",
            FormatError::Truncated { .. } => "buffer too short for a fixed-size structure",
            FormatError::OffsetOutOfRange { .. } => "declared offset/length outside the buffer",
            FormatError::SizeMismatch { .. } => "declared byte length disagrees with expected size",
            FormatError::CorruptIndex { .. } => "level index internally inconsistent",
            FormatError::UnsupportedScheme { .. } => "supercompression scheme not decodable",
        };
        proof {
            reveal_strlit("first 12 bytes do not match the KTX2 identifier");
            reveal_strlit("buffer too short for a fixed-size structure");
            reveal_strlit("declared offset/length outside the buffer");
            reveal_strlit("declared byte length disagrees with expected size");
            reveal_strlit("level index internally inconsistent");
            reveal_strlit("supercompression scheme not decodable");
        }
        r
    }
}

} // verus!
