//! The chunk record of the PNG 1.2 container: four-byte chunk-type codes with
//! their case-bit flags, and the length-prefixed, checksummed chunk encoding.
pub mod chunk;
pub mod chunk_type;
pub mod error;
