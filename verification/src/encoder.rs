//! The encode framer: wraps a chunk body with its length, its tag and its
//! checksum, and collects the bytes of the stream.
use vstd::prelude::*;
use vstd::utf8::encode_utf8;

use crate::checksum::{crc32, crc_fold, lemma_fold_concat, Crc32Table};
use crate::consts;
use crate::encode::Error;
use crate::endian::{be32_bytes, u32_to_be};

verus! {

/// The bytes of one chunk on the wire: the length of the body, the tag, the
/// body, and the checksum of tag and body.
pub open spec fn frame(name: [u8; 4], body: Seq<u8>) -> Seq<u8>
    recommends
        body.len() <= consts::MAX_CHUNK_SIZE,
{
    be32_bytes(body.len() as u32) + name@ + body + be32_bytes(crc32(name@ + body))
}

/// What an [`Enc`] stands for.
pub struct EncView {
    /// The bytes written and not yet handed over.
    pub output: Seq<u8>,
    /// The running checksum of the chunk being written.
    pub chksum: u32,
}

impl EncView {
    /// The state after `bytes` have been written as part of a chunk.
    pub open spec fn write(self, bytes: Seq<u8>) -> EncView {
        EncView { output: self.output + bytes, chksum: crc_fold(self.chksum, bytes) }
    }

    /// The state after the header of a chunk has been written.
    pub open spec fn begin(self, len: usize, name: [u8; 4]) -> EncView {
        EncView {
            output: self.output + be32_bytes(len as u32) + name@,
            chksum: crc_fold(consts::CRC32_INIT, name@),
        }
    }

    /// The state after the checksum of a chunk has been written.
    pub open spec fn finish(self) -> EncView {
        EncView {
            output: self.output + be32_bytes(self.chksum ^ consts::CRC32_INIT),
            chksum: self.chksum,
        }
    }
}

/// Chunk encoder: the output of an encoding session and the running
/// checksum of the chunk in progress.
#[derive(Debug)]
pub struct Enc {
    /// The bytes written and not yet handed over.
    out: Vec<u8>,
    /// Running checksum.
    chksum: u32,
    /// Lookup table of the checksum.
    table: Crc32Table,
}

impl View for Enc {
    type V = EncView;

    closed spec fn view(&self) -> EncView {
        EncView { output: self.out@, chksum: self.chksum }
    }
}

impl Enc {
    /// Starts an encoding session: the output holds the signature.
    pub fn new() -> (enc: Enc)
        ensures
            enc@ == (EncView { output: consts::PNG_SIGNATURE@, chksum: consts::CRC32_INIT }),
    {
        let mut out: Vec<u8> = Vec::new();
        let mut i: usize = 0;
        while i < 8
            invariant
                i <= 8,
                out@ == consts::PNG_SIGNATURE@.subrange(0, i as int),
            decreases 8 - i,
        {
            out.push(consts::PNG_SIGNATURE[i]);
            assert(out@ =~= consts::PNG_SIGNATURE@.subrange(0, i + 1));
            i += 1;
        }
        assert(out@ =~= consts::PNG_SIGNATURE@);
        Enc { out, chksum: consts::CRC32_INIT, table: Crc32Table::new() }
    }

    /// The bytes written and not yet handed over.
    pub fn as_bytes(&self) -> (bytes: &[u8])
        ensures
            bytes@ == self@.output,
    {
        self.out.as_slice()
    }

    /// Hands over the bytes written so far and starts collecting anew, in
    /// the middle of a chunk or between two.
    pub fn take_bytes(&mut self) -> (bytes: Vec<u8>)
        ensures
            bytes@ == old(self)@.output,
            final(self)@ == (EncView { output: Seq::empty(), chksum: old(self)@.chksum }),
    {
        let mut bytes: Vec<u8> = Vec::new();
        core::mem::swap(&mut bytes, &mut self.out);
        bytes
    }

    /// Ends the session and hands over its output.
    pub fn into_bytes(self) -> (bytes: Vec<u8>)
        ensures
            bytes@ == self@.output,
    {
        self.out
    }

    /// Writes the header of a chunk with a body of `len` bytes, and starts
    /// the checksum over.  A length over the maximum is refused, and then
    /// nothing is written.
    pub fn prepare(&mut self, len: usize, name: [u8; 4]) -> (res: Result<(), Error>)
        ensures
            len <= consts::MAX_CHUNK_SIZE ==> res == Ok::<(), Error>(()) && final(self)@ == old(self)@.begin(len, name),
            len > consts::MAX_CHUNK_SIZE ==> res == Err::<(), Error>(Error::ChunkTooBig) && final(self)@ == old(self)@,
    {
        if len > consts::MAX_CHUNK_SIZE {
            return Err(Error::ChunkTooBig);
        }
        self.u32(len as u32);
        // Start checksum over
        self.chksum = consts::CRC32_INIT;
        self.raw(&name);
        assert(self@.output =~= old(self)@.output + be32_bytes(len as u32) + name@);
        Ok(())
    }

    /// Writes one byte of a chunk.
    pub fn u8(&mut self, value: u8)
        ensures
            final(self)@ == old(self)@.write(seq![value]),
    {
        self.out.push(value);
        self.chksum = self.table.update(self.chksum, value);
        proof {
            crate::checksum::lemma_fold_one(old(self)@.chksum, value);
            assert(self@.output =~= old(self)@.output + seq![value]);
        }
    }

    /// Writes a 32-bit number of a chunk, most significant byte first.
    pub fn u32(&mut self, value: u32)
        ensures
            final(self)@ == old(self)@.write(be32_bytes(value)),
    {
        let bytes = u32_to_be(value);
        self.raw(&bytes);
    }

    /// Writes raw bytes of a chunk.
    pub fn raw(&mut self, bytes: &[u8])
        ensures
            final(self)@ == old(self)@.write(bytes@),
    {
        let mut i: usize = 0;
        while i < bytes.len()
            invariant
                i <= bytes@.len(),
                self@ == old(self)@.write(bytes@.subrange(0, i as int)),
            decreases bytes@.len() - i,
        {
            self.u8(bytes[i]);
            proof {
                let done = bytes@.subrange(0, i as int);
                let upto = bytes@.subrange(0, i + 1);
                assert(upto =~= done + seq![bytes@[i as int]]);
                lemma_fold_concat(old(self)@.chksum, done, seq![bytes@[i as int]]);
                assert(self@.output =~= old(self)@.output + upto);
            }
            i += 1;
        }
        assert(bytes@.subrange(0, i as int) =~= bytes@);
    }

    /// Writes a text of a chunk, and a terminator behind it.
    pub fn str(&mut self, text: &str)
        ensures
            final(self)@ == old(self)@.write(encode_utf8(text@).push(consts::TEXT_TERMINATOR)),
    {
        self.string(text);
        self.u8(consts::TEXT_TERMINATOR);
        proof {
            let bytes = encode_utf8(text@);
            assert(bytes.push(consts::TEXT_TERMINATOR) =~= bytes + seq![consts::TEXT_TERMINATOR]);
            lemma_fold_concat(old(self)@.chksum, bytes, seq![consts::TEXT_TERMINATOR]);
            assert(self@.output =~= old(self)@.output + bytes.push(consts::TEXT_TERMINATOR));
        }
    }

    /// Writes a text of a chunk, with nothing behind it.
    pub fn string(&mut self, text: &str)
        ensures
            final(self)@ == old(self)@.write(encode_utf8(text@)),
    {
        self.raw(text.as_bytes());
    }

    /// Writes the checksum of the chunk in progress, which ends the chunk.
    pub fn write_crc(&mut self)
        ensures
            final(self)@ == old(self)@.finish(),
    {
        let bytes = u32_to_be(self.chksum ^ consts::CRC32_INIT);
        let chksum = self.chksum;
        self.raw(&bytes);
        self.chksum = chksum;
    }

    /// Writes a whole chunk: header, body and checksum.  A body over the
    /// maximum length is refused, and then nothing is written.
    pub fn chunk(&mut self, name: [u8; 4], body: &[u8]) -> (res: Result<(), Error>)
        ensures
            body@.len() <= consts::MAX_CHUNK_SIZE ==> res == Ok::<(), Error>(()) && final(self)@.output == old(self)@.output + frame(name, body@),
            body@.len() > consts::MAX_CHUNK_SIZE ==> res == Err::<(), Error>(Error::ChunkTooBig)
                && final(self)@ == old(self)@,
    {
        match self.prepare(body.len(), name) {
            Ok(()) => {},
            Err(e) => return Err(e),
        }
        self.raw(body);
        self.write_crc();
        proof {
            lemma_framed(old(self)@, name, body@);
        }
        Ok(())
    }
}

/// A header, then the bytes of a body, then the checksum make one frame.
pub proof fn lemma_framed(start: EncView, name: [u8; 4], body: Seq<u8>)
    requires
        body.len() <= consts::MAX_CHUNK_SIZE,
    ensures
        start.begin(body.len() as usize, name).write(body).finish().output == start.output + frame(
            name,
            body,
        ),
{
    lemma_fold_concat(consts::CRC32_INIT, name@, body);
    let begun = start.begin(body.len() as usize, name);
    let written = begun.write(body);
    let end = written.finish();
    assert(written.chksum == crc_fold(consts::CRC32_INIT, name@ + body));
    assert(end.output == start.output + be32_bytes(body.len() as u32) + name@ + body + be32_bytes(
        crc32(name@ + body),
    ));
    assert(end.output =~= start.output + frame(name, body));
}

} // verus!
