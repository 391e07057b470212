//! Fixed values of the container format.
use vstd::prelude::*;

verus! {

/// The eight bytes every stream starts with.
pub const PNG_SIGNATURE: [u8; 8] = [137, 80, 78, 71, 13, 10, 26, 10];

/// Value the running checksum starts from, and is finally XORed with.
pub const CRC32_INIT: u32 = 0xFFFF_FFFF;

/// Largest body length a chunk may declare.
pub const MAX_CHUNK_SIZE: usize = 0x7FFF_FFFF;

/// Tag of the image header chunk, `IHDR`.
pub const IMAGE_HEADER: [u8; 4] = [73, 72, 68, 82];

/// Tag of the palette chunk, `PLTE`.
pub const PALETTE: [u8; 4] = [80, 76, 84, 69];

/// Tag of the text chunk, `tEXt`.
pub const TEXT: [u8; 4] = [116, 69, 88, 116];

/// Number of bytes in the body of an image header.
pub const IMAGE_HEADER_SIZE: usize = 13;

/// Byte that ends the keyword of a text chunk.
pub const TEXT_TERMINATOR: u8 = 0;

/// Longest keyword, in bytes, that a text chunk may carry.
pub const MAX_KEY_SIZE: usize = 79;

} // verus!
