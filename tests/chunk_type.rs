use pngme::chunk_type::ChunkType;
use pngme::error::PngError;
use std::convert::TryFrom;
use std::str::FromStr;

#[test]
pub fn test_chunk_type_from_bytes() {
    let expected = [82, 117, 83, 116];
    let actual = ChunkType::try_from([82, 117, 83, 116]).unwrap();

    assert_eq!(expected, actual.bytes());
}

#[test]
pub fn test_chunk_type_from_str() {
    let expected = ChunkType::try_from([82, 117, 83, 116]).unwrap();
    let actual = ChunkType::from_str("RuSt").unwrap();
    assert_eq!(expected, actual);
}

#[test]
pub fn test_chunk_type_is_critical() {
    let chunk = ChunkType::from_str("RuSt").unwrap();
    assert!(chunk.is_critical());
}

#[test]
pub fn test_chunk_type_is_not_critical() {
    let chunk = ChunkType::from_str("ruSt").unwrap();
    assert!(!chunk.is_critical());
}

#[test]
pub fn test_chunk_type_is_public() {
    let chunk = ChunkType::from_str("RUSt").unwrap();
    assert!(chunk.is_public());
}

#[test]
pub fn test_chunk_type_is_not_public() {
    let chunk = ChunkType::from_str("RuSt").unwrap();
    assert!(!chunk.is_public());
}

#[test]
pub fn test_chunk_type_is_reserved_bit_valid() {
    let chunk = ChunkType::from_str("RuSt").unwrap();
    assert!(chunk.is_reserved_bit_valid());
}

#[test]
pub fn test_chunk_type_is_reserved_bit_invalid() {
    let chunk = ChunkType::from_str("Rust").unwrap();
    assert!(!chunk.is_reserved_bit_valid());
}

#[test]
pub fn test_chunk_type_is_safe_to_copy() {
    let chunk = ChunkType::from_str("RuSt").unwrap();
    assert!(chunk.is_safe_to_copy());
}

#[test]
pub fn test_chunk_type_is_unsafe_to_copy() {
    let chunk = ChunkType::from_str("RuST").unwrap();
    assert!(!chunk.is_safe_to_copy());
}

#[test]
pub fn test_valid_chunk_is_valid() {
    let chunk = ChunkType::from_str("RuSt").unwrap();
    assert!(chunk.is_valid());
}

#[test]
pub fn test_invalid_chunk_is_valid() {
    let chunk = ChunkType::from_str("Rust").unwrap();
    assert!(!chunk.is_valid());

    let chunk = ChunkType::from_str("Ru1t");
    assert!(chunk.is_err());
}

#[test]
pub fn test_chunk_type_string() {
    let chunk = ChunkType::from_str("RuSt").unwrap();
    assert_eq!(&chunk.to_string(), "RuSt");
}

#[test]
pub fn test_chunk_type_trait_impls() {
    let chunk_type_1: ChunkType = TryFrom::try_from([82, 117, 83, 116]).unwrap();
    let chunk_type_2: ChunkType = FromStr::from_str("RuSt").unwrap();
    let _chunk_string = chunk_type_1.to_string();
    let _are_chunks_equal = chunk_type_1 == chunk_type_2;
}

#[test]
fn flags_of_rust_vector() {
    let t = ChunkType::from_str("RuSt").unwrap();
    assert!(t.is_valid());
    assert!(t.is_critical());
    assert!(!t.is_public());
    assert!(t.is_reserved_bit_valid());
    assert!(t.is_safe_to_copy());
}

#[test]
fn lowercase_reserved_letter_is_invalid() {
    let t = ChunkType::from_str("Rust").unwrap();
    assert!(!t.is_valid());
    assert!(!t.is_reserved_bit_valid());
}

#[test]
fn digit_is_invalid_format() {
    assert_eq!(ChunkType::from_str("Ru1t"), Err(PngError::InvalidFormat));
}

#[test]
fn wrong_length_is_invalid_format() {
    assert_eq!(ChunkType::from_str("RuS"), Err(PngError::InvalidFormat));
    assert_eq!(ChunkType::from_str("RuStt"), Err(PngError::InvalidFormat));
    assert_eq!(ChunkType::from_str(""), Err(PngError::InvalidFormat));
}

#[test]
fn multibyte_text_is_invalid_format() {
    // Four characters, but more than four bytes.
    assert_eq!(ChunkType::from_str("Ruét"), Err(PngError::InvalidFormat));
}

#[test]
fn raw_bytes_are_kept_even_when_invalid() {
    let t = ChunkType::try_from([0xFF, 0, 49, 122]).unwrap();
    assert_eq!(t.bytes(), [0xFF, 0, 49, 122]);
    assert!(!t.is_valid());
    assert!(t.is_safe_to_copy());
}

#[test]
fn non_utf8_type_renders_placeholder() {
    let t = ChunkType::try_from([0xFF, 82, 83, 84]).unwrap();
    assert_eq!(t.to_string(), "\u{FFFD}");
}

#[test]
fn equality_is_bytewise() {
    let a = ChunkType::from_str("RuSt").unwrap();
    let b = ChunkType::from_str("RuST").unwrap();
    assert!(a != b);
    assert!(a == ChunkType::try_from([82, 117, 83, 116]).unwrap());
}
