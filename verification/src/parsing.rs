//! Reading the body of a chunk through a `parsenic` reader, and turning
//! bytes into text.
use parsenic::error::{EndError, LenError};
use parsenic::{Read, Reader};
use vstd::prelude::*;
use vstd::utf8::{decode_utf8, valid_utf8};

use crate::consts::TEXT_TERMINATOR;

verus! {

/// `parsenic::Reader`: a cursor over a slice of bytes.  Nothing of its
/// inside is known here but what [`reader_rest`] names.
#[verifier::external_type_specification]
#[verifier::external_body]
pub struct ExReader<'a>(Reader<'a>);

/// `parsenic::error::LenError`: a read ran over the end of the buffer.
#[verifier::external_type_specification]
#[verifier::external_body]
pub struct ExLenError(LenError);

/// `parsenic::error::EndError`: the buffer was expected to end and did not.
#[verifier::external_type_specification]
#[verifier::external_body]
pub struct ExEndError(EndError);

/// The bytes that a `parsenic::Reader` has yet to hand out, in order.
pub uninterp spec fn reader_rest(reader: Reader) -> Seq<u8>;

/// What `String::from_utf8_lossy` makes of `bytes`.
pub uninterp spec fn utf8_lossy(bytes: Seq<u8>) -> Seq<char>;

/// `parsenic::Reader::new`: a fresh reader has the whole buffer to hand out.
pub assume_specification<'a>[ Reader::<'a>::new ](buffer: &'a [u8]) -> (reader: Reader<'a>)
    ensures
        reader_rest(reader) == buffer@,
;

/// `parsenic::Read::u8` on a `Reader`: hands out the next byte and moves past
/// it; where no byte is left it fails and leaves the reader as it was.
#[verifier::external_body]
pub(crate) fn reader_u8(reader: &mut Reader<'_>) -> (res: Result<u8, LenError>)
    ensures
        reader_rest(*old(reader)).len() > 0 ==> res is Ok && res->Ok_0 == reader_rest(
            *old(reader),
        )[0] && reader_rest(*final(reader)) == reader_rest(*old(reader)).drop_first(),
        reader_rest(*old(reader)).len() == 0 ==> res is Err && reader_rest(*final(reader))
            == reader_rest(*old(reader)),
{
    reader.u8()
}

/// `parsenic::Read::slice` on a `Reader`, copied out: hands out the next
/// `len` bytes and moves past them; where fewer are left it fails and leaves
/// the reader as it was.
#[verifier::external_body]
pub(crate) fn reader_slice(reader: &mut Reader<'_>, len: usize) -> (res: Result<Vec<u8>, LenError>)
    ensures
        len <= reader_rest(*old(reader)).len() ==> res is Ok && res->Ok_0@ == reader_rest(
            *old(reader),
        ).subrange(0, len as int) && reader_rest(*final(reader)) == reader_rest(
            *old(reader),
        ).subrange(len as int, reader_rest(*old(reader)).len() as int),
        len > reader_rest(*old(reader)).len() ==> res is Err && reader_rest(*final(reader))
            == reader_rest(*old(reader)),
{
    reader.slice(len).map(|bytes| bytes.to_vec())
}

/// `parsenic::Read::end` on a `Reader`: succeeds exactly where nothing is
/// left to hand out.
#[verifier::external_body]
pub(crate) fn reader_end(reader: &Reader<'_>) -> (res: Result<(), EndError>)
    ensures
        res is Ok <==> reader_rest(*reader).len() == 0,
{
    reader.end()
}

/// What lossy decoding makes of `bytes`: valid UTF-8 decodes to the text it
/// encodes, and anything else to that text with its invalid sequences
/// replaced.
pub open spec fn lossy_decode(bytes: Seq<u8>) -> Seq<char> {
    if valid_utf8(bytes) {
        decode_utf8(bytes)
    } else {
        utf8_lossy(bytes)
    }
}

/// `String::from_utf8_lossy`, made owned: the text of `bytes`, with each
/// invalid sequence replaced.  Valid UTF-8 decodes to itself.
#[verifier::external_body]
pub(crate) fn lossy_text(bytes: &[u8]) -> (text: String)
    ensures
        text@ == if valid_utf8(bytes@) {
            decode_utf8(bytes@)
        } else {
            utf8_lossy(bytes@)
        },
{
    String::from_utf8_lossy(bytes).into_owned()
}

/// Number of bytes of `body` before its first terminator; all of them where
/// it has none.
pub open spec fn key_size(body: Seq<u8>) -> int
    decreases body.len(),
{
    if body.len() == 0 || body[0] == TEXT_TERMINATOR {
        0
    } else {
        1 + key_size(body.drop_first())
    }
}

/// The bytes before `key_size` hold no terminator, and the byte at
/// `key_size`, if there is one, is a terminator.
pub proof fn lemma_key_size(body: Seq<u8>)
    ensures
        0 <= key_size(body) <= body.len(),
        forall|i: int| 0 <= i < key_size(body) ==> body[i] != TEXT_TERMINATOR,
        key_size(body) < body.len() ==> body[key_size(body)] == TEXT_TERMINATOR,
    decreases body.len(),
{
    if body.len() == 0 || body[0] == TEXT_TERMINATOR {
    } else {
        let rest = body.drop_first();
        lemma_key_size(rest);
        assert forall|i: int| 0 <= i < key_size(body) implies body[i] != TEXT_TERMINATOR by {
            if i > 0 {
                assert(body[i] == rest[i - 1]);
            }
        }
        if key_size(body) < body.len() {
            assert(body[key_size(body)] == rest[key_size(rest)]);
        }
    }
}

/// Only one place is the first terminator, or the end where there is none.
pub proof fn lemma_key_size_is(body: Seq<u8>, k: int)
    requires
        0 <= k <= body.len(),
        forall|i: int| 0 <= i < k ==> body[i] != TEXT_TERMINATOR,
        k < body.len() ==> body[k] == TEXT_TERMINATOR,
    ensures
        key_size(body) == k,
{
    lemma_key_size(body);
    let found = key_size(body);
    if found < k {
        assert(body[found] == TEXT_TERMINATOR);
    } else if k < found {
        assert(body[k] != TEXT_TERMINATOR);
    }
}

/// Reads a terminated string: hands out the bytes before the next
/// terminator and moves past the terminator.  Where no terminator is left,
/// the reader is used up and the read fails.
pub fn strz(reader: &mut Reader<'_>) -> (res: Result<Vec<u8>, LenError>)
    ensures
        ({
            let rest = reader_rest(*old(reader));
            let k = key_size(rest);
            &&& k < rest.len() ==> res is Ok && res->Ok_0@ == rest.subrange(0, k) && reader_rest(
                *final(reader),
            ) == rest.subrange(k + 1, rest.len() as int)
            &&& k >= rest.len() ==> res is Err && reader_rest(*final(reader)).len() == 0
        }),
{
    let ghost rest = reader_rest(*reader);
    let mut bytes: Vec<u8> = Vec::new();
    loop
        invariant
            rest == reader_rest(*old(reader)),
            bytes@.len() <= rest.len(),
            bytes@ == rest.subrange(0, bytes@.len() as int),
            reader_rest(*reader) == rest.subrange(bytes@.len() as int, rest.len() as int),
            forall|i: int| 0 <= i < bytes@.len() ==> rest[i] != TEXT_TERMINATOR,
        decreases rest.len() - bytes@.len(),
    {
        match reader_u8(reader) {
            Err(e) => {
                proof {
                    lemma_key_size_is(rest, rest.len() as int);
                }
                return Err(e);
            },
            Ok(byte) => {
                let ghost at = bytes@.len() as int;
                assert(byte == rest[at]);
                assert(reader_rest(*reader) =~= rest.subrange(at + 1, rest.len() as int));
                if byte == TEXT_TERMINATOR {
                    proof {
                        lemma_key_size_is(rest, at);
                    }
                    return Ok(bytes);
                }
                bytes.push(byte);
                assert(bytes@ =~= rest.subrange(0, at + 1));
            },
        }
    }
}

} // verus!
