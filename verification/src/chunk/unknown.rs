//! Chunks as a whole, and the chunk that is carried without being read.
use vstd::prelude::*;

use crate::chunk::{ImageHeader, Text, TextView};
use crate::decode::Error as DecoderError;
use crate::decoder::Parser;
use crate::encode::Error as EncoderError;
use crate::encoder::{frame, Enc};
use crate::consts;

verus! {

/// A chunk whose tag this library does not interpret.
#[derive(Clone, Debug, PartialEq, Eq)]
pub struct Unknown {
    /// The tag of the chunk.
    pub name: [u8; 4],
    /// The body of the chunk, as it came.
    pub data: Vec<u8>,
}

/// What an [`Unknown`] stands for.
pub struct UnknownView {
    /// The tag of the chunk.
    pub name: [u8; 4],
    /// The body of the chunk.
    pub data: Seq<u8>,
}

impl View for Unknown {
    type V = UnknownView;

    open spec fn view(&self) -> UnknownView {
        UnknownView { name: self.name, data: self.data@ }
    }
}

impl Unknown {
    /// Reads the body of the current chunk, tagged `name`, and keeps it as
    /// it comes.
    pub fn parse(parse: &mut Parser, name: [u8; 4]) -> (res: Result<Chunk, DecoderError>)
        ensures
            final(parse)@ == old(parse)@.after_read(old(parse)@.length as int),
            old(parse)@.length > old(parse)@.remaining() ==> res == Err::<Chunk, DecoderError>(
                DecoderError::UnexpectedEof,
            ),
            old(parse)@.length <= old(parse)@.remaining() ==> res is Ok && res->Ok_0@
                == ChunkView::Unknown(
                UnknownView { name, data: old(parse)@.next_bytes(old(parse)@.length as int) },
            ),
    {
        match parse.unknown_chunk() {
            Ok(data) => Ok(Chunk::Unknown(Unknown { name, data })),
            Err(e) => Err(e),
        }
    }
}

/// A chunk of the stream.
#[derive(Clone, Debug, PartialEq, Eq)]
pub enum Chunk {
    /// The image header.
    ImageHeader(ImageHeader),
    /// A keyword and its text.
    Text(Text),
    /// Any other chunk, carried as it came.
    Unknown(Unknown),
}

/// What a [`Chunk`] stands for.
pub enum ChunkView {
    /// The image header.
    ImageHeader(ImageHeader),
    /// A keyword and its text.
    Text(TextView),
    /// Any other chunk.
    Unknown(UnknownView),
}

impl Unknown {
    /// Writes the chunk as it is.  A body longer than a chunk may be is
    /// refused, and then nothing is written.
    pub fn write(&self, enc: &mut Enc) -> (res: Result<(), EncoderError>)
        ensures
            self@.data.len() <= consts::MAX_CHUNK_SIZE ==> res == Ok::<(), EncoderError>(())
                && final(enc)@.output == old(enc)@.output + frame(self@.name, self@.data),
            self@.data.len() > consts::MAX_CHUNK_SIZE ==> res == Err::<(), EncoderError>(
                EncoderError::ChunkTooBig,
            ) && final(enc)@ == old(enc)@,
    {
        enc.chunk(self.name, self.data.as_slice())
    }
}

impl View for Chunk {
    type V = ChunkView;

    open spec fn view(&self) -> ChunkView {
        match self {
            Chunk::ImageHeader(header) => ChunkView::ImageHeader(*header),
            Chunk::Text(text) => ChunkView::Text(text@),
            Chunk::Unknown(unknown) => ChunkView::Unknown(unknown@),
        }
    }
}

impl ChunkView {
    /// The tag under which the chunk goes on the wire.
    pub open spec fn name(self) -> [u8; 4] {
        match self {
            ChunkView::ImageHeader(_) => consts::IMAGE_HEADER,
            ChunkView::Text(_) => consts::TEXT,
            ChunkView::Unknown(unknown) => unknown.name,
        }
    }

    /// The body with which the chunk goes on the wire.
    pub open spec fn body(self) -> Seq<u8> {
        match self {
            ChunkView::ImageHeader(header) => header.spec_body(),
            ChunkView::Text(text) => Text::spec_body(text),
            ChunkView::Unknown(unknown) => unknown.data,
        }
    }

    /// Why the chunk cannot be written, if it cannot.
    pub open spec fn write_error(self) -> Option<EncoderError> {
        if self matches ChunkView::Text(text) && vstd::utf8::encode_utf8(text.key).len() == 0 {
            Some(EncoderError::KeySize(0))
        } else if self.body().len() > consts::MAX_CHUNK_SIZE {
            Some(EncoderError::ChunkTooBig)
        } else {
            None
        }
    }
}

impl Chunk {
    /// Writes the chunk: its body, framed with length, tag and checksum.
    /// Where the chunk cannot be written, nothing is.
    pub fn write(&self, enc: &mut Enc) -> (res: Result<(), EncoderError>)
        ensures
            match self@.write_error() {
                Some(e) => res == Err::<(), EncoderError>(e) && final(enc)@ == old(enc)@,
                None => res == Ok::<(), EncoderError>(()) && final(enc)@.output == old(enc)@.output
                    + frame(self@.name(), self@.body()),
            },
    {
        match self {
            Chunk::ImageHeader(header) => header.write(enc),
            Chunk::Text(text) => text.write(enc),
            Chunk::Unknown(unknown) => unknown.write(enc),
        }
    }
}

} // verus!
