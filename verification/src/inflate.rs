//! Compressed payloads.
//!
//! A compressed payload is a zlib stream, and the archive declares next to it
//! how many bytes the file has. Decoding fetches the stream and records it
//! with that size; it does not inflate. Whoever carries the effect out
//! inflates the stream with a decoder of their choice and hands what came out
//! to `fit_to_size`, which makes the file's content of it: a stream that is
//! damaged or ends early gives a file of the declared size all the same, with
//! zero bytes where the decoder produced none.

use vstd::prelude::*;

verus! {

/// `bytes` cut or padded with zero bytes to exactly `size` bytes.
pub open spec fn fit(bytes: Seq<u8>, size: nat) -> Seq<u8> {
    Seq::new(
        size,
        |i: int|
            if i < bytes.len() {
                bytes[i]
            } else {
                0u8
            },
    )
}

/// The content of a compressed file of `size` bytes whose stream has
/// inflated to `bytes`: `bytes` cut to `size` bytes, or filled up to `size`
/// with zero bytes.
pub fn fit_to_size(bytes: Vec<u8>, size: usize) -> (out: Vec<u8>)
    ensures
        out@ == fit(bytes@, size as nat),
{
    let mut out = bytes;
    out.resize(size, 0u8);
    assert(out@ =~= fit(bytes@, size as nat));
    out
}

} // verus!
