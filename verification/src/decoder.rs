//! The chunk framer: a cursor over the input that reads chunk headers,
//! bounds their lengths, and keeps the running checksum of what it reads.
use vstd::prelude::*;

use crate::checksum::{crc_fold, Crc32Table};
use crate::consts;
use crate::decode::{Chunks, ChunksView, Error, Steps};
use crate::endian::{be32_at, u32_from_be};

verus! {

/// The four bytes of `input` that start at `at`, as a tag.
pub open spec fn tag_at(input: Seq<u8>, at: int) -> [u8; 4]
    recommends
        0 <= at,
        at + 4 <= input.len(),
{
    [input[at], input[at + 1], input[at + 2], input[at + 3]]
}

/// Whether two tags are the same.
pub fn same_tag(a: &[u8; 4], b: &[u8; 4]) -> (same: bool)
    ensures
        same == (*a == *b),
{
    let same = a[0] == b[0] && a[1] == b[1] && a[2] == b[2] && a[3] == b[3];
    proof {
        if same {
            assert(*a =~= *b);
        }
    }
    same
}

/// What a [`Parser`] stands for: the input, how far it has been read, and
/// the state that the framer carries from one read to the next.
pub struct ParserView {
    /// The bytes of the input that the framer holds, read or not.
    pub input: Seq<u8>,
    /// How many bytes have been read.
    pub pos: int,
    /// The body length that the last chunk header declared.
    pub length: u32,
    /// The running checksum.
    pub chksum: u32,
    /// Whether the session has come across a palette chunk.
    pub palette: bool,
}

impl ParserView {
    /// How many bytes are left to read.
    pub open spec fn remaining(self) -> int {
        self.input.len() - self.pos
    }

    /// The next `n` bytes.
    pub open spec fn next_bytes(self, n: int) -> Seq<u8>
        recommends
            0 <= n <= self.remaining(),
    {
        self.input.subrange(self.pos, self.pos + n)
    }

    /// The state after the next `n` bytes have been read and folded into the
    /// running checksum.
    pub open spec fn advance(self, n: int) -> ParserView
        recommends
            0 <= n <= self.remaining(),
    {
        ParserView {
            pos: self.pos + n,
            chksum: crc_fold(self.chksum, self.next_bytes(n)),
            ..self
        }
    }

    /// The state after a read that asked for more than is left: the input is
    /// used up, and nothing else has changed.
    pub open spec fn exhaust(self) -> ParserView {
        ParserView { pos: self.input.len() as int, ..self }
    }

    /// The state after a read of `n` bytes, whether they were there or not.
    pub open spec fn after_read(self, n: int) -> ParserView {
        if n <= self.remaining() {
            self.advance(n)
        } else {
            self.exhaust()
        }
    }

    /// The state after a chunk header has been read: the declared length is
    /// kept, and the running checksum starts over and covers the tag.
    pub open spec fn after_header(self) -> ParserView
        recommends
            8 <= self.remaining(),
    {
        ParserView {
            pos: self.pos + 8,
            length: be32_at(self.input, self.pos) as u32,
            chksum: crc_fold(consts::CRC32_INIT, self.input.subrange(self.pos + 4, self.pos + 8)),
            ..self
        }
    }

    /// What [`Parser::prepare`] returns.  The input may end cleanly only
    /// where a chunk would start.
    pub open spec fn prepare_result(self) -> Result<Option<[u8; 4]>, Error> {
        if self.remaining() <= 0 {
            Ok(None)
        } else if self.remaining() < 8 {
            Err(Error::UnexpectedEof)
        } else if self.after_header().length > consts::MAX_CHUNK_SIZE {
            Err(Error::ChunkLength(tag_at(self.input, self.pos + 4)))
        } else {
            Ok(Some(tag_at(self.input, self.pos + 4)))
        }
    }

    /// The state that [`Parser::prepare`] leaves.
    pub open spec fn after_prepare(self) -> ParserView {
        if self.remaining() <= 0 {
            self
        } else if self.remaining() < 8 {
            self.exhaust()
        } else {
            self.after_header()
        }
    }

    /// How many more bytes the input must hold before the next chunk can be
    /// read: up to its header while that is not there, then up to the end
    /// of its checksum.  Where the header declares more than the maximum
    /// length nothing more is needed, as the chunk will be rejected unread.
    pub open spec fn needed(self) -> int {
        if self.remaining() < 8 {
            8 - self.remaining()
        } else if be32_at(self.input, self.pos) > consts::MAX_CHUNK_SIZE {
            0
        } else if self.remaining() < 12 + be32_at(self.input, self.pos) {
            12 + be32_at(self.input, self.pos) - self.remaining()
        } else {
            0
        }
    }

    /// Whether the four bytes behind the body match the running checksum.
    pub open spec fn crc_matches(self) -> bool
        recommends
            4 <= self.remaining(),
    {
        be32_at(self.input, self.pos) == (self.chksum ^ consts::CRC32_INIT)
    }

    /// What [`Parser::check_crc`] returns for the chunk tagged `name`.
    pub open spec fn check_crc_result(self, name: [u8; 4]) -> Result<(), Error> {
        if self.remaining() < 4 {
            Err(Error::UnexpectedEof)
        } else if self.crc_matches() {
            Ok(())
        } else {
            Err(Error::Crc32(name))
        }
    }

    /// The state that [`Parser::check_crc`] leaves: the checksum field is
    /// read, and not folded into the running checksum.
    pub open spec fn after_check_crc(self) -> ParserView {
        if self.remaining() < 4 {
            self.exhaust()
        } else {
            ParserView { pos: self.pos + 4, ..self }
        }
    }
}

/// The input of a decoding session, checked to start with the signature.
#[derive(Debug)]
pub struct Decoder {
    /// All the bytes of the input.
    data: Vec<u8>,
    /// How many of them have been read.
    pos: usize,
}

/// The chunk framer of one decoding session.
#[derive(Debug)]
pub struct Parser {
    /// Body length of the current chunk.
    length: u32,
    /// Running checksum.
    chksum: u32,
    /// The input and the cursor into it.
    decode: Decoder,
    /// Palette chunk found?
    palette: bool,
    /// Lookup table of the checksum.
    table: Crc32Table,
}

impl Decoder {
    #[verifier::type_invariant]
    spec fn well_formed(&self) -> bool {
        self.pos <= self.data@.len()
    }

    /// All the bytes of the input.
    pub closed spec fn input(&self) -> Seq<u8> {
        self.data@
    }

    /// How many bytes of the input have been read.
    pub closed spec fn position(&self) -> int {
        self.pos as int
    }

    /// Whether `input` starts with the signature of the format.
    pub open spec fn has_signature(input: Seq<u8>) -> bool {
        input.len() >= 8 && input.subrange(0, 8) == consts::PNG_SIGNATURE@
    }

    /// Starts a decoding session on `data`: the input, or as much of it as
    /// has come, the signature at least.  Fails if `data` is shorter than
    /// the signature or starts otherwise.
    pub fn new(data: Vec<u8>) -> (res: Result<Decoder, Error>)
        ensures
            data@.len() < 8 ==> res == Err::<Decoder, Error>(Error::UnexpectedEof),
            data@.len() >= 8 && !Decoder::has_signature(data@) ==> res == Err::<Decoder, Error>(
                Error::InvalidSignature,
            ),
            Decoder::has_signature(data@) ==> (res matches Ok(decoder) && decoder.input() == data@
                && decoder.position() == 8),
    {
        if data.len() < 8 {
            return Err(Error::UnexpectedEof);
        }
        let mut i: usize = 0;
        while i < 8
            invariant
                i <= 8,
                data@.len() >= 8,
                forall|j: int| 0 <= j < i ==> data@[j] == consts::PNG_SIGNATURE@[j],
            decreases 8 - i,
        {
            if data[i] != consts::PNG_SIGNATURE[i] {
                assert(data@.subrange(0, 8)[i as int] == data@[i as int]);
                return Err(Error::InvalidSignature);
            }
            i += 1;
        }
        assert(data@.subrange(0, 8) =~= consts::PNG_SIGNATURE@);
        Ok(Decoder { data, pos: 8 })
    }

    /// The state in which the framer of this session starts.
    pub open spec fn start(&self) -> ParserView {
        ParserView {
            input: self.input(),
            pos: self.position(),
            length: 0,
            chksum: 0,
            palette: false,
        }
    }

    /// Convert into the sequence of the chunks of the stream.
    pub fn into_chunks(self) -> (chunks: Chunks)
        ensures
            chunks@ == (ChunksView { parser: self.start(), done: false }),
    {
        Chunks::new(self.parser())
    }

    /// Convert into the sequence of the steps of the stream.
    pub fn into_steps(self) -> (steps: Steps)
        ensures
            steps@ == (ChunksView { parser: self.start(), done: false }),
    {
        Steps::new(self.into_chunks())
    }

    /// Convert into a `Parser`.
    pub fn parser(self) -> (parser: Parser)
        ensures
            parser@ == self.start(),
    {
        Parser { decode: self, length: 0, chksum: 0, palette: false, table: Crc32Table::new() }
    }
}

impl View for Parser {
    type V = ParserView;

    closed spec fn view(&self) -> ParserView {
        ParserView {
            input: self.decode.data@,
            pos: self.decode.pos as int,
            length: self.length,
            chksum: self.chksum,
            palette: self.palette,
        }
    }
}

impl Parser {
    /// Prepare a chunk for reading, returning its tag, or `None` where the
    /// input ends in place of a chunk.  A declared length over the maximum is
    /// reported once the header is read, with no byte of the body consumed.
    pub fn prepare(&mut self) -> (res: Result<Option<[u8; 4]>, Error>)
        ensures
            res == old(self)@.prepare_result(),
            final(self)@ == old(self)@.after_prepare(),
    {
        proof {
            use_type_invariant(&self.decode);
        }
        let remaining = self.decode.data.len() - self.decode.pos;
        if remaining == 0 {
            return Ok(None);
        }
        if remaining < 8 {
            self.decode.pos = self.decode.data.len();
            return Err(Error::UnexpectedEof);
        }
        let ghost before = self@;
        let length = match self.bytes::<4>() {
            Ok(length) => length,
            Err(e) => return Err(e),
        };
        self.length = u32_from_be(length[0], length[1], length[2], length[3]);
        // Start checksum over
        self.chksum = consts::CRC32_INIT;
        let ghost start = self@;
        let name = match self.bytes::<4>() {
            Ok(name) => name,
            Err(e) => return Err(e),
        };
        proof {
            assert(name =~= tag_at(before.input, before.pos + 4));
            assert(start.next_bytes(4) =~= before.input.subrange(before.pos + 4, before.pos + 8));
        }
        if self.length as usize > consts::MAX_CHUNK_SIZE {
            return Err(Error::ChunkLength(name));
        }
        Ok(Some(name))
    }

    /// Moves the input out and leaves an empty one, read up to its start.
    fn take_input(&mut self) -> (data: Vec<u8>)
        ensures
            data@ == old(self)@.input,
            final(self)@ == (ParserView { input: Seq::empty(), pos: 0, ..old(self)@ }),
    {
        let mut data: Vec<u8> = Vec::new();
        self.decode.pos = 0;
        core::mem::swap(&mut data, &mut self.decode.data);
        data
    }

    /// Puts `more` behind the input: what a stream has delivered since.
    pub fn feed(&mut self, more: &[u8])
        ensures
            final(self)@ == (ParserView { input: old(self)@.input + more@, ..old(self)@ }),
    {
        proof {
            use_type_invariant(&self.decode);
        }
        let pos = self.decode.pos;
        let mut data = self.take_input();
        let mut i: usize = 0;
        while i < more.len()
            invariant
                i <= more@.len(),
                data@ == old(self)@.input + more@.subrange(0, i as int),
            decreases more@.len() - i,
        {
            data.push(more[i]);
            assert(data@ =~= old(self)@.input + more@.subrange(0, i + 1));
            i += 1;
        }
        assert(more@.subrange(0, i as int) =~= more@);
        self.decode = Decoder { data, pos };
    }

    /// How many more bytes to feed before the next chunk can be read whole.
    /// Call it between chunks.
    pub fn needed(&self) -> (n: usize)
        ensures
            n == self@.needed(),
    {
        proof {
            use_type_invariant(&self.decode);
        }
        let at = self.decode.pos;
        let remaining = self.decode.data.len() - at;
        if remaining < 8 {
            return 8 - remaining;
        }
        let length = u32_from_be(
            self.decode.data[at],
            self.decode.data[at + 1],
            self.decode.data[at + 2],
            self.decode.data[at + 3],
        ) as usize;
        if length > consts::MAX_CHUNK_SIZE {
            0
        } else if remaining < length + 12 {
            length + 12 - remaining
        } else {
            0
        }
    }

    /// Drops the bytes that have been read, so that the input holds no more
    /// than what is yet to be read.
    pub fn discard_read(&mut self)
        ensures
            final(self)@ == (ParserView {
                input: old(self)@.input.subrange(old(self)@.pos, old(self)@.input.len() as int),
                pos: 0,
                ..old(self)@
            }),
    {
        proof {
            use_type_invariant(&self.decode);
        }
        let pos = self.decode.pos;
        let mut data = self.take_input();
        let rest = data.split_off(pos);
        self.decode = Decoder { data: rest, pos: 0 };
    }

    /// Call this when a palette chunk is found: whether one has shown up
    /// bears on what later chunks mean.
    pub fn set_palette(&mut self)
        ensures
            final(self)@ == (ParserView { palette: true, ..old(self)@ }),
    {
        self.palette = true;
    }

    /// Has a palette chunk been found yet?
    pub fn has_palette(&self) -> (found: bool)
        ensures
            found == self@.palette,
    {
        self.palette
    }

    /// The body length that the current chunk declares.
    pub fn len(&self) -> (n: usize)
        ensures
            n == self@.length,
    {
        self.length as usize
    }

    /// Read the whole body of a chunk that is not interpreted.
    pub fn unknown_chunk(&mut self) -> (res: Result<Vec<u8>, Error>)
        ensures
            final(self)@ == old(self)@.after_read(old(self)@.length as int),
            old(self)@.length <= old(self)@.remaining() ==> (res matches Ok(body) && body@ == old(self)@.next_bytes(old(self)@.length as int)),
            old(self)@.length > old(self)@.remaining() ==> res == Err::<Vec<u8>, Error>(
                Error::UnexpectedEof,
            ),
    {
        self.vec(self.len())
    }

    /// Read the whole body of the current chunk into a `Vec<u8>`.
    pub fn raw(&mut self) -> (res: Result<Vec<u8>, Error>)
        ensures
            final(self)@ == old(self)@.after_read(old(self)@.length as int),
            old(self)@.length <= old(self)@.remaining() ==> (res matches Ok(body) && body@ == old(self)@.next_bytes(old(self)@.length as int)),
            old(self)@.length > old(self)@.remaining() ==> res == Err::<Vec<u8>, Error>(
                Error::UnexpectedEof,
            ),
    {
        self.vec(self.len())
    }

    /// Read the next `N` bytes, folding each into the running checksum.
    /// Where fewer are left, the input is used up and the read fails.
    pub fn bytes<const N: usize>(&mut self) -> (res: Result<[u8; N], Error>)
        ensures
            final(self)@ == old(self)@.after_read(N as int),
            N <= old(self)@.remaining() ==> (res matches Ok(array) && array@ == old(self)@.next_bytes(N as int)),
            N > old(self)@.remaining() ==> res == Err::<[u8; N], Error>(Error::UnexpectedEof),
    {
        proof {
            use_type_invariant(&self.decode);
        }
        let mut array = [0u8; N];
        let start = self.decode.pos;
        if N > self.decode.data.len() - start {
            self.decode.pos = self.decode.data.len();
            return Err(Error::UnexpectedEof);
        }
        let first = self.chksum;
        let mut chksum = first;
        let mut i: usize = 0;
        while i < N
            invariant
                i <= N,
                start + N <= self.decode.data@.len() <= usize::MAX,
                array@.len() == N,
                forall|j: int| 0 <= j < i ==> array@[j] == self.decode.data@[start + j],
                chksum == crc_fold(first, self.decode.data@.subrange(start as int, start + i)),
            decreases N - i,
        {
            let byte = self.decode.data[start + i];
            array[i] = byte;
            chksum = self.table.update(chksum, byte);
            proof {
                let upto = self.decode.data@.subrange(start as int, start + i + 1);
                assert(upto.drop_last() =~= self.decode.data@.subrange(start as int, start + i));
                assert(upto.last() == byte);
            }
            i += 1;
        }
        self.chksum = chksum;
        self.decode.pos = start + N;
        assert(array@ =~= old(self)@.next_bytes(N as int));
        Ok(array)
    }

    /// Check that the checksum behind the body of the chunk tagged `name`
    /// matches the bytes read since its header.
    pub fn check_crc(&mut self, name: &[u8; 4]) -> (res: Result<(), Error>)
        ensures
            res == old(self)@.check_crc_result(*name),
            final(self)@ == old(self)@.after_check_crc(),
    {
        proof {
            use_type_invariant(&self.decode);
        }
        let at = self.decode.pos;
        if self.decode.data.len() - at < 4 {
            self.decode.pos = self.decode.data.len();
            return Err(Error::UnexpectedEof);
        }
        let crc32 = u32_from_be(
            self.decode.data[at],
            self.decode.data[at + 1],
            self.decode.data[at + 2],
            self.decode.data[at + 3],
        );
        self.decode.pos = at + 4;
        if crc32 != (self.chksum ^ consts::CRC32_INIT) {
            return Err(Error::Crc32(*name));
        }
        Ok(())
    }

    /// Read the next byte.
    pub fn u8(&mut self) -> (res: Result<u8, Error>)
        ensures
            final(self)@ == old(self)@.after_read(1),
            1 <= old(self)@.remaining() ==> res == Ok::<u8, Error>(
                old(self)@.input[old(self)@.pos],
            ),
            1 > old(self)@.remaining() ==> res == Err::<u8, Error>(Error::UnexpectedEof),
    {
        match self.bytes::<1>() {
            Ok(array) => Ok(array[0]),
            Err(e) => Err(e),
        }
    }

    /// Read the next `len` bytes into a `Vec<u8>`, folding each into the
    /// running checksum as it is read.
    pub fn vec(&mut self, len: usize) -> (res: Result<Vec<u8>, Error>)
        ensures
            final(self)@ == old(self)@.after_read(len as int),
            len <= old(self)@.remaining() ==> (res matches Ok(out) && out@ == old(self)@.next_bytes(len as int)),
            len > old(self)@.remaining() ==> res == Err::<Vec<u8>, Error>(Error::UnexpectedEof),
    {
        proof {
            use_type_invariant(&self.decode);
        }
        let start = self.decode.pos;
        if len > self.decode.data.len() - start {
            self.decode.pos = self.decode.data.len();
            return Err(Error::UnexpectedEof);
        }
        let mut out: Vec<u8> = Vec::with_capacity(len);
        let first = self.chksum;
        let mut chksum = first;
        let mut i: usize = 0;
        while i < len
            invariant
                i <= len,
                start + len <= self.decode.data@.len() <= usize::MAX,
                out@ == self.decode.data@.subrange(start as int, start + i),
                chksum == crc_fold(first, out@),
            decreases len - i,
        {
            let byte = self.decode.data[start + i];
            out.push(byte);
            chksum = self.table.update(chksum, byte);
            proof {
                let upto = self.decode.data@.subrange(start as int, start + i + 1);
                assert(out@ =~= upto);
                assert(upto.drop_last() =~= self.decode.data@.subrange(start as int, start + i));
            }
            i += 1;
        }
        self.chksum = chksum;
        self.decode.pos = start + len;
        Ok(out)
    }
}

} // verus!
