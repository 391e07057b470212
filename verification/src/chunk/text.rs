//! The text chunk: a keyword and the text that goes with it.
use parsenic::Reader;
use vstd::pervasive::unreached;
use vstd::prelude::*;
use vstd::utf8::encode_utf8;

use crate::chunk::{Chunk, ChunkView};
use crate::consts;
use crate::decode::Error as DecoderError;
use crate::decoder::Parser;
use crate::encode::Error as EncoderError;
use crate::encoder::{frame, lemma_framed, Enc};
use crate::parsing::{
    key_size, lemma_key_size, lossy_decode, lossy_text, reader_end, reader_slice, strz,
};

verus! {

/// Non-international text chunk data.
#[derive(Clone, Debug, PartialEq, Eq)]
pub struct Text {
    /// A keyword that says what the text in `val` is: a title, an author, a
    /// description, or anything else.  On the wire it takes 1 to 79 bytes.
    pub key: String,
    /// The actual message.
    pub val: String,
}

/// What a [`Text`] stands for: its two texts as sequences of characters.
pub struct TextView {
    /// The keyword.
    pub key: Seq<char>,
    /// The message.
    pub val: Seq<char>,
}

impl View for Text {
    type V = TextView;

    open spec fn view(&self) -> TextView {
        TextView { key: self.key@, val: self.val@ }
    }
}

impl TextView {
    /// What the format asks of a text chunk: the keyword takes 1 to 79
    /// bytes and holds no NUL, which would end it early.
    pub open spec fn valid(self) -> bool {
        &&& 1 <= encode_utf8(self.key).len() <= consts::MAX_KEY_SIZE
        &&& !self.key.contains('\0')
    }
}

impl Text {
    /// The body of the chunk: the bytes of the keyword, a terminator, and
    /// the bytes of the message.
    pub open spec fn spec_body(text: TextView) -> Seq<u8> {
        encode_utf8(text.key).push(consts::TEXT_TERMINATOR) + encode_utf8(text.val)
    }

    /// How a chunk body falls into the bytes of the keyword and the bytes
    /// of the message.  The keyword ends before the first terminator and must
    /// have 1 to 79 bytes; the message is all that follows the terminator.
    pub open spec fn spec_split(body: Seq<u8>) -> Result<(Seq<u8>, Seq<u8>), DecoderError> {
        let k = key_size(body);
        if k < 1 || k > consts::MAX_KEY_SIZE {
            Err(DecoderError::KeySize(k as usize))
        } else if k >= body.len() {
            Err(DecoderError::NulTerminator)
        } else {
            Ok((body.subrange(0, k), body.subrange(k + 1, body.len() as int)))
        }
    }

    /// What a chunk body decodes to: both parts as text, decoded lossily.
    pub open spec fn spec_parse(body: Seq<u8>) -> Result<TextView, DecoderError> {
        match Text::spec_split(body) {
            Ok((key, val)) => Ok(TextView { key: lossy_decode(key), val: lossy_decode(val) }),
            Err(e) => Err(e),
        }
    }

    /// Splits a chunk body into the bytes of the keyword and the bytes of
    /// the message.
    pub fn split(body: &[u8]) -> (res: Result<(Vec<u8>, Vec<u8>), DecoderError>)
        ensures
            match Text::spec_split(body@) {
                Ok((key, val)) => res is Ok && res->Ok_0.0@ == key && res->Ok_0.1@ == val,
                Err(e) => res == Err::<(Vec<u8>, Vec<u8>), DecoderError>(e),
            },
    {
        proof {
            lemma_key_size(body@);
        }
        let mut reader = Reader::new(body);
        match strz(&mut reader) {
            Ok(key) => {
                let key_len = key.len();
                if key_len < 1 || key_len > consts::MAX_KEY_SIZE {
                    return Err(DecoderError::KeySize(key_len));
                }
                let val = match reader_slice(&mut reader, body.len() - (key_len + 1)) {
                    Ok(val) => val,
                    Err(_) => unreached(),
                };
                match reader_end(&reader) {
                    Ok(()) => {},
                    Err(_) => unreached(),
                }
                assert(val@ =~= body@.subrange(key_len + 1, body@.len() as int));
                Ok((key, val))
            },
            Err(_) => {
                let key_len = body.len();
                if key_len < 1 || key_len > consts::MAX_KEY_SIZE {
                    Err(DecoderError::KeySize(key_len))
                } else {
                    Err(DecoderError::NulTerminator)
                }
            },
        }
    }

    /// Decodes the body of a text chunk.
    pub fn from_body(body: &[u8]) -> (res: Result<Text, DecoderError>)
        ensures
            match Text::spec_parse(body@) {
                Ok(text) => res is Ok && res->Ok_0@ == text,
                Err(e) => res == Err::<Text, DecoderError>(e),
            },
    {
        match Text::split(body) {
            Ok((key, val)) => Ok(
                Text { key: lossy_text(key.as_slice()), val: lossy_text(val.as_slice()) },
            ),
            Err(e) => Err(e),
        }
    }

    /// Reads the body of the current chunk and decodes it as a text chunk.
    pub fn parse(parse: &mut Parser) -> (res: Result<Chunk, DecoderError>)
        ensures
            final(parse)@ == old(parse)@.after_read(old(parse)@.length as int),
            old(parse)@.length > old(parse)@.remaining() ==> res == Err::<Chunk, DecoderError>(
                DecoderError::UnexpectedEof,
            ),
            old(parse)@.length <= old(parse)@.remaining() ==> match Text::spec_parse(
                old(parse)@.next_bytes(old(parse)@.length as int),
            ) {
                Ok(text) => res is Ok && res->Ok_0@ == ChunkView::Text(text),
                Err(e) => res == Err::<Chunk, DecoderError>(e),
            },
    {
        let buffer = match parse.raw() {
            Ok(buffer) => buffer,
            Err(e) => return Err(e),
        };
        match Text::from_body(buffer.as_slice()) {
            Ok(text) => Ok(Chunk::Text(text)),
            Err(e) => Err(e),
        }
    }

    /// Writes the text chunk.  A keyword must have at least one byte, and
    /// the body must not be longer than a chunk may be; otherwise nothing is
    /// written.
    pub fn write(&self, enc: &mut Enc) -> (res: Result<(), EncoderError>)
        ensures
            encode_utf8(self@.key).len() == 0 ==> res == Err::<(), EncoderError>(
                EncoderError::KeySize(0),
            ) && final(enc)@ == old(enc)@,
            encode_utf8(self@.key).len() > 0 && Text::spec_body(self@).len()
                > consts::MAX_CHUNK_SIZE ==> res == Err::<(), EncoderError>(
                EncoderError::ChunkTooBig,
            ) && final(enc)@ == old(enc)@,
            encode_utf8(self@.key).len() > 0 && Text::spec_body(self@).len()
                <= consts::MAX_CHUNK_SIZE ==> res == Ok::<(), EncoderError>(()) && final(enc)@.output == old(enc)@.output + frame(consts::TEXT, Text::spec_body(self@)),
    {
        let key = self.key.as_str();
        let val = self.val.as_str();
        let key_len = key.as_bytes().len();
        let val_len = val.as_bytes().len();
        // Checks
        if key_len == 0 {
            return Err(EncoderError::KeySize(0));
        }
        if key_len >= consts::MAX_CHUNK_SIZE || val_len > consts::MAX_CHUNK_SIZE - key_len - 1 {
            return Err(EncoderError::ChunkTooBig);
        }
        // 1 Null-terminated string, 1 string
        match enc.prepare(key_len + val_len + 1, consts::TEXT) {
            Ok(()) => {},
            Err(e) => return Err(e),
        }
        let ghost begun = enc@;
        enc.str(key);
        enc.string(val);
        enc.write_crc();
        proof {
            let key_bytes = encode_utf8(self@.key).push(consts::TEXT_TERMINATOR);
            let val_bytes = encode_utf8(self@.val);
            crate::checksum::lemma_fold_concat(begun.chksum, key_bytes, val_bytes);
            assert(begun.write(key_bytes).write(val_bytes).output =~= begun.write(
                key_bytes + val_bytes,
            ).output);
            lemma_framed(old(enc)@, consts::TEXT, Text::spec_body(self@));
        }
        Ok(())
    }
}

} // verus!
