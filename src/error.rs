use vstd::prelude::*;

verus! {

/// Why building or decoding a chunk failed.
#[derive(Debug, Clone, Copy, PartialEq, Eq, Structural)]
pub enum PngError {
    /// A textual chunk type is not exactly four ASCII letters.
    InvalidFormat,
    /// A decoded chunk type fails the validity rule.
    InvalidChunkType,
    /// The buffer ends before the record that its length field announces.
    TruncatedInput,
    /// The checksum stored in the record differs from the one recomputed.
    ChecksumMismatch { expected: u32, actual: u32 },
    /// The payload is not well-formed UTF-8.
    EncodingError,
}

} // verus!
