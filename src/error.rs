use vstd::prelude::*;

verus! {

/// Everything that can go wrong when building a type code or reading a chunk.
#[derive(Debug, Clone, Copy, PartialEq, Eq, Structural)]
pub enum ChunkError {
    /// Type-code text is not exactly four bytes long.
    InvalidLength,
    /// Type-code text holds a byte that is not an ASCII letter.
    InvalidCharacter,
    /// The buffer is too short for the chunk it announces.
    Truncated,
    /// The buffer holds more bytes than the announced payload accounts for.
    LengthMismatch,
    /// The stored checksum differs from the one computed over type code and payload.
    ChecksumMismatch,
    /// The payload is not valid UTF-8; the index up to which it was valid.
    NotUtf8(usize),
}

} // verus!
