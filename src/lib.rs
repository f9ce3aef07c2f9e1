//! A length-prefixed, type-tagged, CRC-checked binary record ("chunk") and
//! the four-letter type code whose letter case carries four flags.

pub mod error;
pub mod external;
pub mod chunk_type;
pub mod chunk;
pub mod text;

pub use error::ChunkError;
pub use chunk_type::ChunkType;
pub use chunk::Chunk;

