//! Encoding: what can go wrong.
use vstd::prelude::*;

verus! {

/// Why a chunk could not be encoded.
#[derive(Copy, Clone, Debug, PartialEq, Eq)]
pub enum Error {
    /// The keyword of a text chunk has this many bytes, and must have at
    /// least one.
    KeySize(usize),
    /// The body is longer than the format lets a chunk declare.
    ChunkTooBig,
}

} // verus!
