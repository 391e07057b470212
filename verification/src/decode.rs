//! Decoding: what can go wrong, and the sequence of decoded chunks.
use vstd::prelude::*;

use crate::chunk::{Chunk, ChunkView, ColorType, ImageHeader, Text, Unknown, UnknownView};
use crate::consts;
use crate::decoder::{same_tag, Parser, ParserView};

verus! {

/// Why decoding stopped.  Every error ends the session it arose in.
#[derive(Copy, Clone, Debug, PartialEq, Eq)]
pub enum Error {
    /// The input ended inside the signature or inside a chunk: the short
    /// read of a stream.
    UnexpectedEof,
    /// The input does not start with the signature of the format.
    InvalidSignature,
    /// The chunk with this tag declares a length that is not acceptable:
    /// over the maximum, or not the size that the tag's grammar fixes.
    ChunkLength([u8; 4]),
    /// The checksum behind the chunk with this tag does not match its bytes.
    Crc32([u8; 4]),
    /// The image header gives a width or a height of zero.
    ImageDimensions,
    /// The image header gives this bit depth, outside 1 to 16.
    BitDepth(u8),
    /// The image header gives this byte as color type, which stands for none.
    ColorType(u8),
    /// The image header pairs this color type with this bit depth, which the
    /// format does not allow.
    ColorMode(ColorType, u8),
    /// The image header names a compression method other than 0.
    CompressionMethod,
    /// The image header names a filter method other than 0.
    FilterMethod,
    /// The image header names an interlace method other than 0 and 1.
    InterlaceMethod,
    /// The keyword of a text chunk has this many bytes, outside 1 to 79.
    KeySize(usize),
    /// The keyword of a text chunk runs to the end of the chunk, with no
    /// terminator behind it.
    NulTerminator,
}

/// What the body of a chunk tagged `name` decodes to.  A tag that is not
/// interpreted is no error: its body is kept as it came.
pub open spec fn decode_body(name: [u8; 4], body: Seq<u8>) -> Result<ChunkView, Error> {
    if name == consts::IMAGE_HEADER {
        match ImageHeader::spec_read(body) {
            Ok(header) => Ok(ChunkView::ImageHeader(header)),
            Err(e) => Err(e),
        }
    } else if name == consts::TEXT {
        match Text::spec_parse(body) {
            Ok(text) => Ok(ChunkView::Text(text)),
            Err(e) => Err(e),
        }
    } else {
        Ok(ChunkView::Unknown(UnknownView { name, data: body }))
    }
}

/// What an item of the chunk sequence stands for.
pub open spec fn item_view(item: Option<Result<Chunk, Error>>) -> Option<Result<ChunkView, Error>> {
    match item {
        None => None,
        Some(Err(e)) => Some(Err(e)),
        Some(Ok(chunk)) => Some(Ok(chunk@)),
    }
}

/// What a [`Chunks`] stands for: the framer, and whether the sequence has
/// ended, cleanly or on an error.
pub struct ChunksView {
    /// The state of the framer.
    pub parser: ParserView,
    /// Whether the sequence has ended.
    pub done: bool,
}

impl ChunksView {
    /// The framer once the next chunk's body has been read.
    pub open spec fn after_body(self) -> ParserView {
        let header = self.parser.after_prepare();
        header.after_read(header.length as int)
    }

    /// The body of the next chunk.
    pub open spec fn next_body(self) -> Seq<u8> {
        let header = self.parser.after_prepare();
        header.next_bytes(header.length as int)
    }

    /// The next item of the sequence.  The sequence ends where the input
    /// ends in place of a chunk, and behind the first error.  The checksum
    /// of a chunk is verified whatever its body decoded to, and its failure
    /// comes first.
    pub open spec fn next_item(self) -> Option<Result<ChunkView, Error>> {
        if self.done {
            None
        } else {
            match self.parser.prepare_result() {
                Ok(None) => None,
                Err(e) => Some(Err(e)),
                Ok(Some(name)) => match self.after_body().check_crc_result(name) {
                    Err(e) => Some(Err(e)),
                    Ok(()) => Some(decode_body(name, self.next_body())),
                },
            }
        }
    }

    /// How many more bytes the input must hold before the next item can be
    /// told: none once the sequence has ended.
    pub open spec fn needed(self) -> int {
        if self.done {
            0
        } else {
            self.parser.needed()
        }
    }

    /// The state with `more` put behind the input.
    pub open spec fn feed(self, more: Seq<u8>) -> ChunksView {
        ChunksView { parser: ParserView { input: self.parser.input + more, ..self.parser }, ..self }
    }

    /// The state with the bytes dropped that have been read.
    pub open spec fn discard_read(self) -> ChunksView {
        ChunksView {
            parser: ParserView {
                input: self.parser.input.subrange(self.parser.pos, self.parser.input.len() as int),
                pos: 0,
                ..self.parser
            },
            ..self
        }
    }

    /// The state behind the next item.  A palette chunk that is yielded
    /// sets the palette flag for the rest of the session.
    pub open spec fn after_next(self) -> ChunksView {
        if self.done {
            self
        } else {
            match self.parser.prepare_result() {
                Ok(None) => ChunksView { parser: self.parser.after_prepare(), done: true },
                Err(e) => ChunksView { parser: self.parser.after_prepare(), done: true },
                Ok(Some(name)) => {
                    let end = self.after_body().after_check_crc();
                    if self.next_item() matches Some(Ok(chunk)) {
                        ChunksView {
                            parser: if name == consts::PALETTE {
                                ParserView { palette: true, ..end }
                            } else {
                                end
                            },
                            done: false,
                        }
                    } else {
                        ChunksView { parser: end, done: true }
                    }
                },
            }
        }
    }
}

/// The chunks of a stream, decoded one at a time and in their order on the
/// wire.  The sequence is read once: it cannot be rewound.
#[derive(Debug)]
pub struct Chunks {
    /// The framer.
    dec: Parser,
    /// Whether the sequence has ended.
    done: bool,
}

impl View for Chunks {
    type V = ChunksView;

    closed spec fn view(&self) -> ChunksView {
        ChunksView { parser: self.dec@, done: self.done }
    }
}

impl Chunks {
    /// The sequence of the chunks that `dec` has yet to read.
    pub fn new(dec: Parser) -> (chunks: Chunks)
        ensures
            chunks@ == (ChunksView { parser: dec@, done: false }),
    {
        Chunks { dec, done: false }
    }

    /// Has a palette chunk been yielded yet?
    pub fn has_palette(&self) -> (found: bool)
        ensures
            found == self@.parser.palette,
    {
        self.dec.has_palette()
    }

    /// How many more bytes to feed before the next item can be told from
    /// what the input holds.  Where a stream cannot deliver them, the input
    /// is at its end, and the next item says what that means.
    pub fn needed(&self) -> (n: usize)
        ensures
            n == self@.needed(),
    {
        if self.done {
            0
        } else {
            self.dec.needed()
        }
    }

    /// Puts `more` behind the input: what a stream has delivered since.
    pub fn feed(&mut self, more: &[u8])
        ensures
            final(self)@ == old(self)@.feed(more@),
    {
        self.dec.feed(more);
    }

    /// Drops the bytes that have been read, so that the input holds no more
    /// than what is yet to be read.
    pub fn discard_read(&mut self)
        ensures
            final(self)@ == old(self)@.discard_read(),
    {
        self.dec.discard_read();
    }

    /// Decodes the next chunk.  `None` marks the end of the sequence; an
    /// error is the last item of the sequence.
    pub fn next(&mut self) -> (item: Option<Result<Chunk, Error>>)
        ensures
            item_view(item) == old(self)@.next_item(),
            final(self)@ == old(self)@.after_next(),
    {
        if self.done {
            return None;
        }
        match self.get_next() {
            Ok(Some(chunk)) => Some(Ok(chunk)),
            Ok(None) => {
                self.done = true;
                None
            },
            Err(e) => {
                self.done = true;
                Some(Err(e))
            },
        }
    }

    /// Reads one chunk, if the input holds another.
    fn get_next(&mut self) -> (res: Result<Option<Chunk>, Error>)
        requires
            !old(self)@.done,
        ensures
            match res {
                Ok(Some(chunk)) => old(self)@.next_item() == Some(
                    Ok::<ChunkView, Error>(chunk@),
                ) && final(self)@ == old(self)@.after_next(),
                Ok(None) => old(self)@.next_item() is None,
                Err(e) => old(self)@.next_item() == Some(Err::<ChunkView, Error>(e)),
            },
            !(res matches Ok(Some(_))) ==> (ChunksView { done: true, ..final(self)@ }) == old(
                self,
            )@.after_next(),
    {
        let name = match self.dec.prepare() {
            Ok(Some(name)) => name,
            Ok(None) => return Ok(None),
            Err(e) => return Err(e),
        };
        let chunk = if same_tag(&name, &consts::IMAGE_HEADER) {
            ImageHeader::parse(&mut self.dec)
        } else if same_tag(&name, &consts::TEXT) {
            Text::parse(&mut self.dec)
        } else {
            Unknown::parse(&mut self.dec, name)
        };
        match self.dec.check_crc(&name) {
            Ok(()) => {},
            Err(e) => return Err(e),
        }
        match chunk {
            Ok(chunk) => {
                if same_tag(&name, &consts::PALETTE) {
                    self.dec.set_palette();
                }
                Ok(Some(chunk))
            },
            Err(e) => Err(e),
        }
    }
}

/// One step of handing the stream on to whoever assembles the raster: a
/// chunk, in the order of the stream, with the palette signal as of that
/// chunk.
#[derive(Clone, Debug, PartialEq, Eq)]
pub struct Step {
    /// The chunk.
    pub chunk: Chunk,
    /// Whether a palette chunk has come by, this chunk included.
    pub palette: bool,
}

/// What a step of the sequence stands for.
pub open spec fn step_view(step: Option<Result<Step, Error>>) -> Option<
    Result<(ChunkView, bool), Error>,
> {
    match step {
        None => None,
        Some(Err(e)) => Some(Err(e)),
        Some(Ok(step)) => Some(Ok((step.chunk@, step.palette))),
    }
}

impl ChunksView {
    /// The next step: the next item, and with a chunk the palette flag
    /// behind it.
    pub open spec fn next_step(self) -> Option<Result<(ChunkView, bool), Error>> {
        match self.next_item() {
            None => None,
            Some(Err(e)) => Some(Err(e)),
            Some(Ok(chunk)) => Some(Ok((chunk, self.after_next().parser.palette))),
        }
    }
}

/// The steps of a stream: its chunks, each with the palette signal.
#[derive(Debug)]
pub struct Steps {
    /// The chunks that the steps are made of.
    chunks: Chunks,
}

impl View for Steps {
    type V = ChunksView;

    closed spec fn view(&self) -> ChunksView {
        self.chunks@
    }
}

impl Steps {
    /// The steps made of `chunks`.
    pub fn new(chunks: Chunks) -> (steps: Steps)
        ensures
            steps@ == chunks@,
    {
        Steps { chunks }
    }

    /// How many more bytes to feed before the next step can be told from
    /// what the input holds.
    pub fn needed(&self) -> (n: usize)
        ensures
            n == self@.needed(),
    {
        self.chunks.needed()
    }

    /// Puts `more` behind the input: what a stream has delivered since.
    pub fn feed(&mut self, more: &[u8])
        ensures
            final(self)@ == old(self)@.feed(more@),
    {
        self.chunks.feed(more);
    }

    /// Drops the bytes that have been read, so that the input holds no more
    /// than what is yet to be read.
    pub fn discard_read(&mut self)
        ensures
            final(self)@ == old(self)@.discard_read(),
    {
        self.chunks.discard_read();
    }

    /// Decodes the next chunk and pairs it with the palette signal.  `None`
    /// marks the end of the sequence; an error is its last item.
    pub fn next(&mut self) -> (step: Option<Result<Step, Error>>)
        ensures
            step_view(step) == old(self)@.next_step(),
            final(self)@ == old(self)@.after_next(),
    {
        match self.chunks.next() {
            None => None,
            Some(Err(e)) => Some(Err(e)),
            Some(Ok(chunk)) => {
                let palette = self.chunks.has_palette();
                Some(Ok(Step { chunk, palette }))
            },
        }
    }
}

} // verus!
