//! The chunks this library decodes and encodes.
mod ihdr;
mod text;
mod unknown;

pub use ihdr::{lemma_image_header_round_trip, ColorType, ImageHeader};
pub use text::{Text, TextView};
pub use unknown::{Chunk, ChunkView, Unknown, UnknownView};
