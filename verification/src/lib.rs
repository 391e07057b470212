//! Chunk-level codec for PNG streams.
//!
//! A stream is the eight-byte signature followed by chunks.  Each chunk is a
//! big-endian length, a four-byte tag, a body of that length, and the CRC-32
//! of tag and body.  This library checks the signature, frames the stream
//! into chunks while guarding against hostile lengths and damaged bytes,
//! decodes and encodes the image header and text chunks, and hands every
//! other chunk on as it came.  It never looks into pixel data.
//!
//! Decoding starts at [`Decoder::new`], which takes the input, and goes on
//! chunk by chunk through [`decode::Chunks::next`].  The input may be given
//! whole, or as far as it has come and then fed as it comes: the sequence
//! says how many bytes it needs for its next chunk, and never asks for the
//! body of a chunk that it will reject for its length.  Encoding goes
//! through [`encoder::Enc`], which collects the bytes of the stream.
//!
//! The library does no input or output of its own.
pub mod checksum;
pub mod chunk;
pub mod consts;
pub mod decode;
pub mod decoder;
pub mod encode;
pub mod encoder;
pub mod endian;
pub mod laws;
pub mod parsing;

pub use decode::Step;
pub use decoder::Decoder;
