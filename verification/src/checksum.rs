//! The 32-bit cyclic redundancy check that guards every chunk.
//!
//! The check is the usual reflected CRC-32: a running 32-bit value is folded
//! over the bytes one at a time through a 256-entry table, and the published
//! checksum is the running value XORed with the constant it started from.
use vstd::prelude::*;

use crate::consts::CRC32_INIT;

verus! {

/// The generator polynomial, bit-reversed.
pub const CRC32_POLY: u32 = 0xEDB8_8320;

/// One step of the bitwise division: shift one bit out, and subtract the
/// polynomial if the bit was set.
pub open spec fn crc_shift(c: u32) -> u32 {
    if c & 1 == 1 {
        (c >> 1) ^ CRC32_POLY
    } else {
        c >> 1
    }
}

/// Eight steps of the bitwise division.
pub open spec fn crc_shift8(c: u32) -> u32 {
    crc_shift(crc_shift(crc_shift(crc_shift(crc_shift(crc_shift(crc_shift(crc_shift(c))))))))
}

/// Entry `index` of the lookup table: the remainder of the byte `index`.
pub open spec fn crc_entry(index: u32) -> u32 {
    crc_shift8(index)
}

/// The running value after one more byte.
pub open spec fn crc_update(acc: u32, byte: u8) -> u32 {
    crc_entry((acc ^ (byte as u32)) & 0xff) ^ (acc >> 8)
}

/// The running value after all of `bytes`, starting from `acc`.
pub open spec fn crc_fold(acc: u32, bytes: Seq<u8>) -> u32
    decreases bytes.len(),
{
    if bytes.len() == 0 {
        acc
    } else {
        crc_update(crc_fold(acc, bytes.drop_last()), bytes.last())
    }
}

/// The checksum of `bytes` as it is written behind a chunk.
pub open spec fn crc32(bytes: Seq<u8>) -> u32 {
    crc_fold(CRC32_INIT, bytes) ^ CRC32_INIT
}

/// The table-driven step is the bitwise division of the running value with
/// the byte mixed in.
pub proof fn lemma_update_is_division(acc: u32, byte: u8)
    ensures
        crc_update(acc, byte) == crc_shift8(acc ^ (byte as u32)),
{
    let x = acc ^ (byte as u32);
    assert(acc >> 8 == x >> 8) by (bit_vector)
        requires
            x == acc ^ (byte as u32),
    ;
    assert(crc_shift8(x & 0xff) ^ (x >> 8) == crc_shift8(x)) by (bit_vector);
}

/// Eight steps of the division lose nothing: different values stay different.
pub proof fn lemma_shift8_injective(x: u32, y: u32)
    ensures
        crc_shift8(x) == crc_shift8(y) ==> x == y,
{
    assert(crc_shift8(x) == crc_shift8(y) ==> x == y) by (bit_vector);
}

/// Folding over a concatenation is folding over its parts in turn.
pub proof fn lemma_fold_concat(acc: u32, first: Seq<u8>, second: Seq<u8>)
    ensures
        crc_fold(acc, first + second) == crc_fold(crc_fold(acc, first), second),
    decreases second.len(),
{
    if second.len() == 0 {
        assert(first + second =~= first);
    } else {
        lemma_fold_concat(acc, first, second.drop_last());
        assert((first + second).drop_last() =~= first + second.drop_last());
        assert((first + second).last() == second.last());
    }
}

/// Folding over a single byte is one step.
pub proof fn lemma_fold_one(acc: u32, byte: u8)
    ensures
        crc_fold(acc, seq![byte]) == crc_update(acc, byte),
{
    let s = seq![byte];
    assert(s.drop_last() =~= Seq::<u8>::empty());
    assert(crc_fold(acc, s.drop_last()) == acc);
}

/// One step keeps two different running values different, and sends two
/// different bytes to different running values.
pub proof fn lemma_update_injective(acc1: u32, byte1: u8, acc2: u32, byte2: u8)
    ensures
        byte1 == byte2 && crc_update(acc1, byte1) == crc_update(acc2, byte2) ==> acc1 == acc2,
        acc1 == acc2 && crc_update(acc1, byte1) == crc_update(acc2, byte2) ==> byte1 == byte2,
{
    lemma_update_is_division(acc1, byte1);
    lemma_update_is_division(acc2, byte2);
    let x1 = acc1 ^ (byte1 as u32);
    let x2 = acc2 ^ (byte2 as u32);
    lemma_shift8_injective(x1, x2);
    assert(x1 == x2 && byte1 == byte2 ==> acc1 == acc2) by (bit_vector)
        requires
            x1 == acc1 ^ (byte1 as u32),
            x2 == acc2 ^ (byte2 as u32),
    ;
    assert(x1 == x2 && acc1 == acc2 ==> byte1 == byte2) by (bit_vector)
        requires
            x1 == acc1 ^ (byte1 as u32),
            x2 == acc2 ^ (byte2 as u32),
    ;
}

/// Two different running values stay different over any common bytes.
pub proof fn lemma_fold_keeps_difference(acc1: u32, acc2: u32, bytes: Seq<u8>)
    requires
        acc1 != acc2,
    ensures
        crc_fold(acc1, bytes) != crc_fold(acc2, bytes),
    decreases bytes.len(),
{
    if bytes.len() > 0 {
        lemma_fold_keeps_difference(acc1, acc2, bytes.drop_last());
        lemma_update_injective(
            crc_fold(acc1, bytes.drop_last()),
            bytes.last(),
            crc_fold(acc2, bytes.drop_last()),
            bytes.last(),
        );
    }
}

/// Changing exactly one byte of a message changes its running value, and so
/// its checksum.
pub proof fn lemma_single_byte_change_detected(acc: u32, before: Seq<u8>, after: Seq<u8>, at: int)
    requires
        before.len() == after.len(),
        0 <= at < before.len(),
        before[at] != after[at],
        forall|i: int| 0 <= i < before.len() && i != at ==> before[i] == after[i],
    ensures
        crc_fold(acc, before) != crc_fold(acc, after),
        acc == CRC32_INIT ==> crc32(before) != crc32(after),
{
    let n = before.len() as int;
    let head = before.subrange(0, at);
    let tail = before.subrange(at + 1, n);
    assert(before =~= head + seq![before[at]] + tail);
    assert(after =~= head + seq![after[at]] + tail);
    let mid = crc_fold(acc, head);
    lemma_fold_concat(acc, head, seq![before[at]]);
    lemma_fold_concat(acc, head, seq![after[at]]);
    lemma_fold_one(mid, before[at]);
    lemma_fold_one(mid, after[at]);
    lemma_update_injective(mid, before[at], mid, after[at]);
    let m1 = crc_update(mid, before[at]);
    let m2 = crc_update(mid, after[at]);
    lemma_fold_concat(acc, head + seq![before[at]], tail);
    lemma_fold_concat(acc, head + seq![after[at]], tail);
    lemma_fold_keeps_difference(m1, m2, tail);
    let f1 = crc_fold(acc, before);
    let f2 = crc_fold(acc, after);
    assert(f1 != f2 ==> f1 ^ CRC32_INIT != f2 ^ CRC32_INIT) by (bit_vector);
}

/// The lookup table of the checksum, computed once and then only read.
#[derive(Debug)]
pub struct Crc32Table {
    entries: Vec<u32>,
}

/// One step of the bitwise division.
fn shift(c: u32) -> (r: u32)
    ensures
        r == crc_shift(c),
{
    if c & 1 == 1 {
        (c >> 1) ^ CRC32_POLY
    } else {
        c >> 1
    }
}

/// The table entry for `index`, by bitwise division.
fn entry(index: u32) -> (e: u32)
    ensures
        e == crc_entry(index),
{
    let c = shift(index);
    let c = shift(c);
    let c = shift(c);
    let c = shift(c);
    let c = shift(c);
    let c = shift(c);
    let c = shift(c);
    shift(c)
}

impl Crc32Table {
    #[verifier::type_invariant]
    spec fn well_formed(&self) -> bool {
        &&& self.entries@.len() == 256
        &&& forall|i: int| 0 <= i < 256 ==> #[trigger] self.entries@[i] == crc_entry(i as u32)
    }

    /// The entries of the table, in order.
    pub closed spec fn entries(&self) -> Seq<u32> {
        self.entries@
    }

    /// Computes the 256 entries.
    pub fn new() -> (table: Crc32Table)
        ensures
            table.entries() == Seq::new(256, |i: int| crc_entry(i as u32)),
    {
        let mut entries: Vec<u32> = Vec::with_capacity(256);
        let mut index: u32 = 0;
        while index < 256
            invariant
                index <= 256,
                entries@.len() == index,
                forall|i: int| 0 <= i < index ==> #[trigger] entries@[i] == crc_entry(i as u32),
            decreases 256 - index,
        {
            let e = entry(index);
            entries.push(e);
            index += 1;
        }
        assert(entries@ =~= Seq::new(256, |i: int| crc_entry(i as u32)));
        Crc32Table { entries }
    }

    /// Folds one byte into the running value `acc`.
    pub fn update(&self, acc: u32, byte: u8) -> (next: u32)
        ensures
            next == crc_update(acc, byte),
    {
        proof {
            use_type_invariant(self);
        }
        let low: u32 = (acc ^ (byte as u32)) & 0xff;
        assert(low < 256) by (bit_vector)
            requires
                low == (acc ^ (byte as u32)) & 0xff,
        ;
        let index: usize = low as usize;
        self.entries[index] ^ (acc >> 8)
    }

    /// Folds all of `bytes` into the running value `acc`, first byte first.
    pub fn fold(&self, acc: u32, bytes: &[u8]) -> (next: u32)
        ensures
            next == crc_fold(acc, bytes@),
    {
        let mut next: u32 = acc;
        let mut i: usize = 0;
        while i < bytes.len()
            invariant
                i <= bytes@.len(),
                next == crc_fold(acc, bytes@.subrange(0, i as int)),
            decreases bytes@.len() - i,
        {
            next = self.update(next, bytes[i]);
            proof {
                let upto = bytes@.subrange(0, i + 1);
                assert(upto.drop_last() =~= bytes@.subrange(0, i as int));
                assert(upto.last() == bytes@[i as int]);
            }
            i += 1;
        }
        assert(bytes@.subrange(0, i as int) =~= bytes@);
        next
    }

    /// The checksum of `bytes` as it is written behind a chunk.
    pub fn checksum(&self, bytes: &[u8]) -> (sum: u32)
        ensures
            sum == crc32(bytes@),
    {
        self.fold(CRC32_INIT, bytes) ^ CRC32_INIT
    }
}

} // verus!
