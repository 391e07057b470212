//! What holds of the codec as a whole: what is encoded decodes to itself,
//! damage to a chunk is caught, and a chunk is decoded from its own bytes
//! alone.
use vstd::prelude::*;
use vstd::utf8::{
    char_u32_cast, encode_scalar, encode_utf8, encode_utf8_decode_utf8, encode_utf8_valid_utf8,
    last_continuation_byte, leading_byte_width_1, leading_byte_width_2, leading_byte_width_3,
    leading_byte_width_4, second_last_continuation_byte, third_last_continuation_byte,
};

use crate::checksum::{crc32, crc_fold, lemma_fold_concat, lemma_single_byte_change_detected};
use crate::chunk::{lemma_image_header_round_trip, ChunkView, ImageHeader, Text, TextView};
use crate::consts;
use crate::decode::{decode_body, ChunksView, Error};
use crate::decoder::{tag_at, ParserView};
use crate::encoder::frame;
use crate::endian::{be32_at, be32_bytes, lemma_be32_round_trip};
use crate::parsing::{lemma_key_size_is, lossy_decode};

verus! {

/// Whether the bytes of `input` from `pos` on start with the chunk tagged
/// `name` with the body `body`, written out in full.
pub open spec fn holds_frame(input: Seq<u8>, pos: int, name: [u8; 4], body: Seq<u8>) -> bool {
    &&& 0 <= pos
    &&& body.len() <= consts::MAX_CHUNK_SIZE
    &&& pos + 12 + body.len() <= input.len()
    &&& input.subrange(pos, pos + 12 + body.len()) == frame(name, body)
}

/// What is written behind any bytes lies there: the output of encoding a
/// chunk holds the chunk where the output stood before.
pub proof fn lemma_written_frame_lies_there(
    before: Seq<u8>,
    name: [u8; 4],
    body: Seq<u8>,
    behind: Seq<u8>,
)
    requires
        body.len() <= consts::MAX_CHUNK_SIZE,
    ensures
        holds_frame(before + frame(name, body) + behind, before.len() as int, name, body),
{
    let input = before + frame(name, body) + behind;
    let pos = before.len() as int;
    lemma_be32_round_trip(body.len() as u32);
    lemma_be32_round_trip(crc32(name@ + body));
    assert(frame(name, body).len() == 12 + body.len());
    assert(input.subrange(pos, pos + 12 + body.len()) =~= frame(name, body));
}

/// The parts of a chunk that lies in the input, each at its place.
proof fn lemma_frame_parts(input: Seq<u8>, pos: int, name: [u8; 4], body: Seq<u8>)
    requires
        holds_frame(input, pos, name, body),
    ensures
        be32_at(input, pos) == body.len(),
        tag_at(input, pos + 4) == name,
        input.subrange(pos + 4, pos + 8) == name@,
        input.subrange(pos + 8, pos + 8 + body.len()) == body,
        be32_at(input, pos + 8 + body.len()) == crc32(name@ + body),
{
    let n = body.len() as int;
    let whole = input.subrange(pos, pos + 12 + n);
    let length = be32_bytes(n as u32);
    let check = be32_bytes(crc32(name@ + body));
    lemma_be32_round_trip(n as u32);
    lemma_be32_round_trip(crc32(name@ + body));
    assert(whole == length + name@ + body + check);
    assert forall|i: int| 0 <= i < 12 + n implies input[pos + i] == whole[i] by {}
    assert(whole[0] == length[0] && whole[1] == length[1] && whole[2] == length[2] && whole[3]
        == length[3]);
    assert(whole[4] == name[0] && whole[5] == name[1] && whole[6] == name[2] && whole[7]
        == name[3]);
    assert(tag_at(input, pos + 4) =~= name);
    assert(input.subrange(pos + 4, pos + 8) =~= name@);
    assert forall|i: int| 0 <= i < n implies input[pos + 8 + i] == body[i] by {
        assert(whole[8 + i] == body[i]);
    }
    assert(input.subrange(pos + 8, pos + 8 + n) =~= body);
    assert(whole[8 + n] == check[0] && whole[9 + n] == check[1] && whole[10 + n] == check[2]
        && whole[11 + n] == check[3]);
}

/// A chunk that is written out in full at the cursor is yielded as what its
/// body decodes to, and the cursor then stands behind its checksum.
pub proof fn lemma_frame_decodes(chunks: ChunksView, name: [u8; 4], body: Seq<u8>)
    requires
        !chunks.done,
        holds_frame(chunks.parser.input, chunks.parser.pos, name, body),
    ensures
        chunks.next_item() == Some(decode_body(name, body)),
        chunks.after_next().parser.input == chunks.parser.input,
        chunks.after_next().parser.pos == chunks.parser.pos + 12 + body.len(),
        chunks.after_next().done == (decode_body(name, body) is Err),
{
    let input = chunks.parser.input;
    let pos = chunks.parser.pos;
    lemma_frame_parts(input, pos, name, body);
    lemma_fold_concat(consts::CRC32_INIT, name@, body);
    let header = chunks.parser.after_prepare();
    assert(header.length == body.len());
    assert(header.next_bytes(header.length as int) == body);
    let read = chunks.after_body();
    assert(read.chksum == crc_fold(consts::CRC32_INIT, name@ + body));
    assert(read.crc_matches());
}

/// Decoding what encoding wrote of a valid image header yields the header:
/// the same width, height, color type, bit depth and interlacing.
pub proof fn lemma_image_header_decodes(chunks: ChunksView, header: ImageHeader)
    requires
        !chunks.done,
        header.valid(),
        holds_frame(
            chunks.parser.input,
            chunks.parser.pos,
            consts::IMAGE_HEADER,
            header.spec_body(),
        ),
    ensures
        chunks.next_item() == Some(Ok::<ChunkView, Error>(ChunkView::ImageHeader(header))),
        !chunks.after_next().done,
{
    lemma_image_header_round_trip(header);
    lemma_frame_decodes(chunks, consts::IMAGE_HEADER, header.spec_body());
}

/// No byte of the encoding of a character other than NUL is zero.
proof fn lemma_scalar_has_no_zero_byte(scalar: u32)
    requires
        scalar != 0,
    ensures
        forall|i: int| 0 <= i < encode_scalar(scalar).len() ==> encode_scalar(scalar)[i] != 0,
{
    assert(scalar <= 0x7F ==> leading_byte_width_1(scalar) != 0) by (bit_vector)
        requires
            scalar != 0,
    ;
    assert(leading_byte_width_2(scalar) != 0 && leading_byte_width_3(scalar) != 0
        && leading_byte_width_4(scalar) != 0) by (bit_vector);
    assert(last_continuation_byte(scalar) != 0 && second_last_continuation_byte(scalar) != 0
        && third_last_continuation_byte(scalar) != 0) by (bit_vector);
}

/// A text without the NUL character is encoded without a zero byte, so a
/// keyword without NUL holds no terminator.
pub proof fn lemma_text_without_nul_has_no_terminator(chars: Seq<char>)
    requires
        !chars.contains('\0'),
    ensures
        !encode_utf8(chars).contains(consts::TEXT_TERMINATOR),
    decreases chars.len(),
{
    if chars.len() > 0 {
        let first = encode_scalar(chars[0] as u32);
        let rest = chars.drop_first();
        assert(chars.contains(chars[0]));
        assert(chars[0] as u32 != 0) by {
            char_u32_cast(chars[0], chars[0] as u32);
            char_u32_cast('\0', 0u32);
        }
        lemma_scalar_has_no_zero_byte(chars[0] as u32);
        assert forall|i: int| 0 <= i < rest.len() implies rest[i] != '\0' by {
            assert(chars.contains(chars[i + 1]));
        }
        lemma_text_without_nul_has_no_terminator(rest);
        let bytes = encode_utf8(chars);
        assert(bytes == first + encode_utf8(rest));
        assert forall|i: int| 0 <= i < bytes.len() implies bytes[i] != consts::TEXT_TERMINATOR by {
            if i >= first.len() {
                assert(encode_utf8(rest).contains(encode_utf8(rest)[i - first.len()]));
            }
        }
    }
}

/// The body of a text chunk decodes to the keyword and the message that it
/// was made of, where the keyword has 1 to 79 bytes and no NUL in it.
pub proof fn lemma_text_round_trip(text: TextView)
    requires
        text.valid(),
    ensures
        Text::spec_parse(Text::spec_body(text)) == Ok::<TextView, Error>(text),
{
    lemma_text_without_nul_has_no_terminator(text.key);
    let key = encode_utf8(text.key);
    let val = encode_utf8(text.val);
    let body = Text::spec_body(text);
    let k = key.len() as int;
    assert forall|i: int| 0 <= i < k implies body[i] != consts::TEXT_TERMINATOR by {
        assert(body[i] == key[i]);
        assert(key.contains(key[i]));
    }
    assert(body[k] == consts::TEXT_TERMINATOR);
    lemma_key_size_is(body, k);
    assert(body.subrange(0, k) =~= key);
    assert(body.subrange(k + 1, body.len() as int) =~= val);
    encode_utf8_valid_utf8(text.key);
    encode_utf8_valid_utf8(text.val);
    encode_utf8_decode_utf8(text.key);
    encode_utf8_decode_utf8(text.val);
    assert(lossy_decode(key) == text.key);
    assert(lossy_decode(val) == text.val);
}

/// Decoding what encoding wrote of a text chunk yields the same keyword and
/// the same message, where the keyword has 1 to 79 bytes and no NUL in it.
pub proof fn lemma_text_decodes(chunks: ChunksView, text: TextView)
    requires
        !chunks.done,
        text.valid(),
        holds_frame(chunks.parser.input, chunks.parser.pos, consts::TEXT, Text::spec_body(text)),
    ensures
        chunks.next_item() == Some(Ok::<ChunkView, Error>(ChunkView::Text(text))),
        !chunks.after_next().done,
{
    lemma_text_round_trip(text);
    lemma_frame_decodes(chunks, consts::TEXT, Text::spec_body(text));
}

/// A complete chunk at the cursor whose checksum field differs from the
/// checksum of its tag and body yields the checksum error.
proof fn lemma_mismatch_is_reported(chunks: ChunksView, name: [u8; 4], n: int)
    requires
        !chunks.done,
        0 <= chunks.parser.pos,
        0 <= n <= consts::MAX_CHUNK_SIZE,
        chunks.parser.pos + 12 + n <= chunks.parser.input.len(),
        be32_at(chunks.parser.input, chunks.parser.pos) == n,
        tag_at(chunks.parser.input, chunks.parser.pos + 4) == name,
        be32_at(chunks.parser.input, chunks.parser.pos + 8 + n) != crc32(
            chunks.parser.input.subrange(chunks.parser.pos + 4, chunks.parser.pos + 8 + n),
        ),
    ensures
        chunks.next_item() == Some(Err::<ChunkView, Error>(Error::Crc32(name))),
        chunks.after_next().done,
{
    let input = chunks.parser.input;
    let pos = chunks.parser.pos;
    let tag = input.subrange(pos + 4, pos + 8);
    let body = input.subrange(pos + 8, pos + 8 + n);
    lemma_fold_concat(consts::CRC32_INIT, tag, body);
    assert(tag + body =~= input.subrange(pos + 4, pos + 8 + n));
    let header = chunks.parser.after_prepare();
    assert(header.length == n);
    assert(header.next_bytes(header.length as int) == body);
    let read = chunks.after_body();
    assert(read.chksum == crc_fold(consts::CRC32_INIT, tag + body));
    assert(!read.crc_matches());
}

/// A change to one byte of the body of a chunk that was written out in full
/// is caught: in place of the chunk the checksum error is yielded, and the
/// sequence ends.  Flipping a single bit of the body is such a change.
pub proof fn lemma_damaged_body_is_caught(
    sound: ChunksView,
    damaged: ChunksView,
    name: [u8; 4],
    body: Seq<u8>,
    at: int,
)
    requires
        !sound.done,
        holds_frame(sound.parser.input, sound.parser.pos, name, body),
        0 <= at < body.len(),
        damaged == (ChunksView {
            parser: ParserView { input: damaged.parser.input, ..sound.parser },
            ..sound
        }),
        damaged.parser.input.len() == sound.parser.input.len(),
        forall|i: int|
            0 <= i < sound.parser.input.len() && i != sound.parser.pos + 8 + at
                ==> damaged.parser.input[i] == sound.parser.input[i],
        damaged.parser.input[sound.parser.pos + 8 + at] != sound.parser.input[sound.parser.pos + 8
            + at],
    ensures
        damaged.next_item() == Some(Err::<ChunkView, Error>(Error::Crc32(name))),
        damaged.after_next().done,
{
    let pos = sound.parser.pos;
    let n = body.len() as int;
    let good = sound.parser.input;
    let bad = damaged.parser.input;
    lemma_frame_parts(good, pos, name, body);
    assert(be32_at(bad, pos) == be32_at(good, pos));
    assert(tag_at(bad, pos + 4) =~= tag_at(good, pos + 4));
    assert(be32_at(bad, pos + 8 + n) == be32_at(good, pos + 8 + n));
    let before = good.subrange(pos + 4, pos + 8 + n);
    let after = bad.subrange(pos + 4, pos + 8 + n);
    assert(before =~= name@ + body);
    assert(before[4 + at] != after[4 + at]);
    lemma_single_byte_change_detected(consts::CRC32_INIT, before, after, 4 + at);
    lemma_mismatch_is_reported(damaged, name, n);
}

/// A header that declares more than the maximum length is rejected with
/// the cursor behind the header: no byte of the body is read.
pub proof fn lemma_oversized_chunk_is_rejected(chunks: ChunksView)
    requires
        !chunks.done,
        chunks.parser.remaining() >= 8,
        be32_at(chunks.parser.input, chunks.parser.pos) > consts::MAX_CHUNK_SIZE,
    ensures
        chunks.next_item() == Some(
            Err::<ChunkView, Error>(
                Error::ChunkLength(tag_at(chunks.parser.input, chunks.parser.pos + 4)),
            ),
        ),
        chunks.after_next().parser.pos == chunks.parser.pos + 8,
        chunks.after_next().done,
{
}

/// A chunk is decoded from its own bytes alone: two inputs that agree up to
/// the end of the next chunk yield the same item and leave the same state.
pub proof fn lemma_next_reads_only_its_chunk(first: ChunksView, second: ChunksView, end: int)
    requires
        !first.done,
        first.done == second.done,
        first.parser.pos == second.parser.pos,
        first.parser.length == second.parser.length,
        first.parser.chksum == second.parser.chksum,
        first.parser.palette == second.parser.palette,
        0 <= first.parser.pos,
        first.parser.pos + 8 <= end,
        end == first.parser.pos + 12 + be32_at(first.parser.input, first.parser.pos),
        end <= first.parser.input.len(),
        end <= second.parser.input.len(),
        first.parser.input.subrange(0, end) == second.parser.input.subrange(0, end),
    ensures
        first.next_item() == second.next_item(),
        first.after_next().done == second.after_next().done,
        first.after_next().parser == (ParserView {
            input: first.parser.input,
            ..second.after_next().parser
        }),
{
    let a = first.parser.input;
    let b = second.parser.input;
    let pos = first.parser.pos;
    assert forall|i: int| 0 <= i < end implies a[i] == b[i] by {
        assert(a.subrange(0, end)[i] == b.subrange(0, end)[i]);
    }
    assert(be32_at(a, pos) == be32_at(b, pos));
    assert(tag_at(a, pos + 4) =~= tag_at(b, pos + 4));
    assert(a.subrange(pos + 4, pos + 8) =~= b.subrange(pos + 4, pos + 8));
    let n = be32_at(a, pos);
    if n <= consts::MAX_CHUNK_SIZE {
        assert(a.subrange(pos + 8, pos + 8 + n) =~= b.subrange(pos + 8, pos + 8 + n));
        assert(be32_at(a, pos + 8 + n) == be32_at(b, pos + 8 + n));
    }
}

/// Once nothing more is needed, the next item is there and is not the
/// error of an input that ended too early.
pub proof fn lemma_nothing_needed_means_whole(chunks: ChunksView)
    requires
        !chunks.done,
        0 <= chunks.parser.pos <= chunks.parser.input.len(),
        chunks.needed() == 0,
    ensures
        chunks.next_item() is Some,
        chunks.next_item() != Some(Err::<ChunkView, Error>(Error::UnexpectedEof)),
{
    let header = chunks.parser.after_prepare();
    if header.length <= consts::MAX_CHUNK_SIZE {
        let name = tag_at(chunks.parser.input, chunks.parser.pos + 4);
        assert(chunks.parser.prepare_result() == Ok::<Option<[u8; 4]>, Error>(Some(name)));
        assert(chunks.after_body().remaining() >= 4);
        if chunks.after_body().crc_matches() {
            let body = chunks.next_body();
            assert(decode_body(name, body) != Err::<ChunkView, Error>(Error::UnexpectedEof)) by {
                if name == consts::IMAGE_HEADER {
                    assert(ImageHeader::spec_read(body) != Err::<ImageHeader, Error>(
                        Error::UnexpectedEof,
                    ));
                } else if name == consts::TEXT {
                    assert(Text::spec_parse(body) != Err::<TextView, Error>(Error::UnexpectedEof));
                }
            }
        }
    }
}

/// Once nothing more is needed, what a stream delivers later does not
/// change the next item, nor the state behind it but for the input.
pub proof fn lemma_later_input_changes_nothing(chunks: ChunksView, more: Seq<u8>)
    requires
        !chunks.done,
        0 <= chunks.parser.pos <= chunks.parser.input.len(),
        chunks.needed() == 0,
    ensures
        chunks.feed(more).next_item() == chunks.next_item(),
        chunks.feed(more).after_next() == chunks.after_next().feed(more),
{
    let a = chunks.parser.input;
    let b = chunks.feed(more).parser.input;
    let pos = chunks.parser.pos;
    assert forall|i: int| 0 <= i < a.len() implies a[i] == b[i] by {}
    assert(be32_at(a, pos) == be32_at(b, pos));
    assert(tag_at(a, pos + 4) =~= tag_at(b, pos + 4));
    assert(a.subrange(pos + 4, pos + 8) =~= b.subrange(pos + 4, pos + 8));
    let n = be32_at(a, pos);
    if n <= consts::MAX_CHUNK_SIZE {
        assert(a.subrange(pos + 8, pos + 8 + n) =~= b.subrange(pos + 8, pos + 8 + n));
        assert(be32_at(a, pos + 8 + n) == be32_at(b, pos + 8 + n));
    }
}

/// Dropping the bytes that have been read changes neither the next item
/// nor the state behind it, but that the cursor counts from where the input
/// now starts.
pub proof fn lemma_discarding_changes_nothing(chunks: ChunksView)
    requires
        0 <= chunks.parser.pos <= chunks.parser.input.len(),
    ensures
        chunks.discard_read().next_item() == chunks.next_item(),
        chunks.discard_read().after_next().discard_read() == chunks.after_next().discard_read(),
        chunks.discard_read().after_next().parser.pos == chunks.after_next().parser.pos
            - chunks.parser.pos,
{
    let a = chunks.parser.input;
    let b = chunks.discard_read().parser.input;
    let pos = chunks.parser.pos;
    assert forall|i: int| 0 <= i < b.len() implies b[i] == a[pos + i] by {}
    if !chunks.done && chunks.parser.remaining() >= 8 {
        assert(be32_at(b, 0) == be32_at(a, pos));
        assert(tag_at(b, 4) =~= tag_at(a, pos + 4));
        assert(b.subrange(4, 8) =~= a.subrange(pos + 4, pos + 8));
        let n = be32_at(a, pos);
        if n <= chunks.parser.remaining() - 8 {
            assert(b.subrange(8, 8 + n) =~= a.subrange(pos + 8, pos + 8 + n));
            if n + 12 <= chunks.parser.remaining() {
                assert(be32_at(b, 8 + n) == be32_at(a, pos + 8 + n));
            }
        }
    }
    let first = chunks.discard_read().after_next().discard_read();
    let second = chunks.after_next().discard_read();
    assert(first.parser.input =~= second.parser.input);
}

} // verus!
