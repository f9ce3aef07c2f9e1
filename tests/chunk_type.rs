use pngchunk::{ChunkError, ChunkType};

#[test]
pub fn test_chunk_type_from_bytes() {
    let expected = [82, 117, 83, 116];
    let actual = ChunkType::try_from([82, 117, 83, 116]).unwrap();
    assert_eq!(expected, actual.bytes());
}

#[test]
pub fn test_chunk_type_from_str() {
    let expected = ChunkType::try_from([82, 117, 83, 116]).unwrap();
    let actual = ChunkType::from_str("RuSt").unwrap();
    assert_eq!(expected, actual);
}

#[test]
pub fn test_chunk_type_is_critical() {
    let chunk = ChunkType::from_str("RuSt").unwrap();
    assert!(chunk.is_critical());
}

#[test]
pub fn test_chunk_type_is_not_critical() {
    let chunk = ChunkType::from_str("ruSt").unwrap();
    assert!(!chunk.is_critical());
}

#[test]
pub fn test_chunk_type_is_public() {
    let chunk = ChunkType::from_str("RUSt").unwrap();
    assert!(chunk.is_public());
}

#[test]
pub fn test_chunk_type_is_not_public() {
    let chunk = ChunkType::from_str("RuSt").unwrap();
    assert!(!chunk.is_public());
}

#[test]
pub fn test_chunk_type_is_reserved_bit_valid() {
    let chunk = ChunkType::from_str("RuSt").unwrap();
    assert!(chunk.is_reserved_bit_valid());
}

#[test]
pub fn test_chunk_type_is_reserved_bit_invalid() {
    let chunk = ChunkType::from_str("Rust").unwrap();
    assert!(!chunk.is_reserved_bit_valid());
}

#[test]
pub fn test_chunk_type_is_safe_to_copy() {
    let chunk = ChunkType::from_str("RuSt").unwrap();
    assert!(chunk.is_safe_to_copy());
}

#[test]
pub fn test_chunk_type_is_unsafe_to_copy() {
    let chunk = ChunkType::from_str("RuST").unwrap();
    assert!(!chunk.is_safe_to_copy());
}

#[test]
pub fn test_valid_chunk_is_valid() {
    let chunk = ChunkType::from_str("RuSt").unwrap();
    assert!(chunk.is_valid());
}

#[test]
pub fn test_invalid_chunk_is_valid() {
    let chunk = ChunkType::from_str("Rust").unwrap();
    assert!(!chunk.is_valid());

    let chunk = ChunkType::from_str("Ru1t");
    assert!(chunk.is_err());
}

#[test]
pub fn test_chunk_type_string() {
    let chunk = ChunkType::from_str("RuSt").unwrap();
    assert_eq!(&chunk.to_string(), "RuSt");
}

#[test]
pub fn test_chunk_type_trait_impls() {
    let chunk_type_1: ChunkType = TryFrom::try_from([82, 117, 83, 116]).unwrap();
    let chunk_type_2: ChunkType = std::str::FromStr::from_str("RuSt").unwrap();
    let _chunk_string = chunk_type_1.to_string();
    let _are_chunks_equal = chunk_type_1 == chunk_type_2;
}

#[test]
fn case_flags_of_rust_variants() {
    let t = ChunkType::from_str("RuSt").unwrap();
    assert!(t.is_critical());
    assert!(!t.is_public());
    assert!(t.is_reserved_bit_valid());
    assert!(t.is_safe_to_copy());
    assert!(!ChunkType::from_str("RuST").unwrap().is_safe_to_copy());
    assert!(!ChunkType::from_str("ruSt").unwrap().is_critical());
}

#[test]
fn text_of_wrong_length_is_rejected() {
    assert_eq!(ChunkType::from_str("RuS"), Err(ChunkError::InvalidLength));
    assert_eq!(ChunkType::from_str("RuStx"), Err(ChunkError::InvalidLength));
    assert_eq!(ChunkType::from_str(""), Err(ChunkError::InvalidLength));
    assert_eq!(ChunkType::from_str("Ruéa"), Err(ChunkError::InvalidLength));
}

#[test]
fn text_with_non_letters_is_rejected() {
    assert_eq!(ChunkType::from_str("Ru1t"), Err(ChunkError::InvalidCharacter));
    assert_eq!(ChunkType::from_str("Ru!t"), Err(ChunkError::InvalidCharacter));
    assert_eq!(ChunkType::from_str("Ru t"), Err(ChunkError::InvalidCharacter));
}

#[test]
fn text_round_trips_through_type_code() {
    for s in ["RuSt", "abcd", "ZZZZ", "aBcD", "IHDR", "tEXt"] {
        assert_eq!(ChunkType::from_str(s).unwrap().to_string(), s);
    }
}

#[test]
fn raw_bytes_are_kept_unchecked() {
    let t = ChunkType::try_from([0, 49, 255, 97]).unwrap();
    assert_eq!(t.bytes(), [0, 49, 255, 97]);
    assert!(!t.is_critical());
    assert!(t.is_safe_to_copy());
}
