//! Big-endian 32-bit integers, the only multi-byte numbers of the format.
use vstd::prelude::*;

verus! {

/// The number that four bytes spell, most significant byte first.
pub open spec fn be32(b0: u8, b1: u8, b2: u8, b3: u8) -> int {
    b0 as int * 0x100_0000 + b1 as int * 0x1_0000 + b2 as int * 0x100 + b3 as int
}

/// The number spelt by the four bytes of `bytes` that start at `at`.
pub open spec fn be32_at(bytes: Seq<u8>, at: int) -> int
    recommends
        0 <= at,
        at + 4 <= bytes.len(),
{
    be32(bytes[at], bytes[at + 1], bytes[at + 2], bytes[at + 3])
}

/// The four bytes that spell `value`, most significant byte first.
pub open spec fn be32_bytes(value: u32) -> Seq<u8> {
    seq![
        (value / 0x100_0000) as u8,
        (value / 0x1_0000 % 0x100) as u8,
        (value / 0x100 % 0x100) as u8,
        (value % 0x100) as u8,
    ]
}

/// Reading back the bytes of a number gives the number.
pub proof fn lemma_be32_round_trip(value: u32)
    ensures
        be32_bytes(value).len() == 4,
        be32_at(be32_bytes(value), 0) == value,
{
}

/// Puts four bytes together, most significant byte first.
pub fn u32_from_be(b0: u8, b1: u8, b2: u8, b3: u8) -> (value: u32)
    ensures
        value == be32(b0, b1, b2, b3),
{
    (b0 as u32) * 0x100_0000 + (b1 as u32) * 0x1_0000 + (b2 as u32) * 0x100 + (b3 as u32)
}

/// Takes a number apart into four bytes, most significant byte first.
pub fn u32_to_be(value: u32) -> (bytes: [u8; 4])
    ensures
        bytes@ == be32_bytes(value),
{
    let bytes = [
        (value / 0x100_0000) as u8,
        (value / 0x1_0000 % 0x100) as u8,
        (value / 0x100 % 0x100) as u8,
        (value % 0x100) as u8,
    ];
    assert(bytes@ =~= be32_bytes(value));
    bytes
}

/// Appends one byte to `out`.
pub fn encode_u8(out: &mut Vec<u8>, value: u8)
    ensures
        final(out)@ == old(out)@.push(value),
{
    out.push(value);
}

/// Appends the four bytes of `value` to `out`, most significant byte first.
pub fn encode_u32(out: &mut Vec<u8>, value: u32)
    ensures
        final(out)@ == old(out)@ + be32_bytes(value),
{
    let bytes = u32_to_be(value);
    out.push(bytes[0]);
    out.push(bytes[1]);
    out.push(bytes[2]);
    out.push(bytes[3]);
    assert(out@ =~= old(out)@ + be32_bytes(value));
}

} // verus!
