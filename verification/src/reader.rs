//! Reading bytes: one cursor that only moves forward, and reads at absolute
//! offsets beside it.

use crate::error::DecodeError;
use vstd::prelude::*;
use vstd::slice::{slice_subrange, slice_to_vec};

verus! {

/// Number of bytes of `data` that lie at or after `pos`; zero when `pos` is
/// past the end.
pub open spec fn bytes_left(data: Seq<u8>, pos: nat) -> nat {
    if pos <= data.len() {
        (data.len() - pos) as nat
    } else {
        0
    }
}

/// The `len` bytes of `data` that begin `start` bytes into it.
pub open spec fn span(data: Seq<u8>, start: nat, len: nat) -> Seq<u8>
    recommends
        start + len <= data.len(),
{
    data.subrange(start as int, (start + len) as int)
}

/// The unsigned 32-bit integer that the four bytes of `data` from `at` on
/// spell in big-endian order.
pub open spec fn be_u32(data: Seq<u8>, at: nat) -> nat
    recommends
        at + 4 <= data.len(),
{
    let at = at as int;
    (data[at] as nat) * 0x100_0000 + (data[at + 1] as nat) * 0x1_0000 + (data[at + 2] as nat)
        * 0x100 + (data[at + 3] as nat)
}

/// A cursor over a byte source held in memory.
///
/// Sequential reads move the cursor forward; a sequential read that asks for
/// more than is left fails with `TruncatedInput` and leaves the cursor at the
/// end of the source. Reads at an absolute offset neither move the cursor nor
/// depend on it.
pub struct ByteReader<'a> {
    data: &'a [u8],
    pos: usize,
}

impl<'a> ByteReader<'a> {
    /// The whole byte source.
    pub closed spec fn source(&self) -> Seq<u8> {
        self.data@
    }

    /// Offset of the next byte a sequential read takes.
    pub closed spec fn position(&self) -> nat {
        self.pos as nat
    }

    /// The cursor never leaves the source.
    #[verifier::type_invariant]
    pub open spec fn within_source(&self) -> bool {
        self.position() <= self.source().len()
    }

    /// Bytes between the cursor and the end of the source.
    pub open spec fn left(&self) -> nat {
        bytes_left(self.source(), self.position())
    }

    /// The `count` bytes that start at the cursor.
    pub open spec fn upcoming(&self, count: nat) -> Seq<u8>
        recommends
            count <= self.left(),
    {
        span(self.source(), self.position(), count)
    }

    /// A reader over `data` with its cursor at the first byte.
    pub fn new(data: &'a [u8]) -> (reader: Self)
        ensures
            reader.source() == data@,
            reader.position() == 0,
    {
        ByteReader { data, pos: 0 }
    }

    /// Offset of the cursor from the start of the source.
    pub fn offset(&self) -> (at: usize)
        ensures
            at == self.position(),
    {
        self.pos
    }

    /// Number of bytes between the cursor and the end of the source.
    pub fn remaining(&self) -> (count: usize)
        ensures
            count == self.left(),
    {
        proof {
            use_type_invariant(self);
        }
        self.data.len() - self.pos
    }

    /// Advances the cursor by `bytes` without returning them.
    pub fn skip_bytes(&mut self, bytes: usize) -> (r: Result<(), DecodeError>)
        ensures
            final(self).source() == old(self).source(),
            bytes <= old(self).left() ==> r == Ok::<(), DecodeError>(()) && final(self).position()
                == old(self).position() + bytes,
            bytes > old(self).left() ==> r == Err::<(), DecodeError>(DecodeError::TruncatedInput)
                && final(self).position() == old(self).source().len(),
    {
        proof {
            use_type_invariant(&*self);
        }
        if bytes <= self.data.len() - self.pos {
            self.pos = self.pos + bytes;
            Ok(())
        } else {
            self.pos = self.data.len();
            Err(DecodeError::TruncatedInput)
        }
    }

    /// Takes the next `bytes` bytes.
    pub fn read_bytes(&mut self, bytes: usize) -> (r: Result<Vec<u8>, DecodeError>)
        ensures
            final(self).source() == old(self).source(),
            bytes <= old(self).left() ==> final(self).position() == old(self).position() + bytes
                && r is Ok && r->Ok_0@ == old(self).upcoming(bytes as nat),
            bytes > old(self).left() ==> r == Err::<Vec<u8>, DecodeError>(
                DecodeError::TruncatedInput,
            ) && final(self).position() == old(self).source().len(),
    {
        proof {
            use_type_invariant(&*self);
        }
        if bytes <= self.data.len() - self.pos {
            let taken = slice_to_vec(slice_subrange(self.data, self.pos, self.pos + bytes));
            self.pos = self.pos + bytes;
            Ok(taken)
        } else {
            self.pos = self.data.len();
            Err(DecodeError::TruncatedInput)
        }
    }

    /// Takes the next four bytes.
    pub fn read_four(&mut self) -> (r: Result<[u8; 4], DecodeError>)
        ensures
            final(self).source() == old(self).source(),
            4 <= old(self).left() ==> final(self).position() == old(self).position() + 4 && r is Ok
                && r->Ok_0@ == old(self).upcoming(4),
            4 > old(self).left() ==> r == Err::<[u8; 4], DecodeError>(DecodeError::TruncatedInput)
                && final(self).position() == old(self).source().len(),
    {
        proof {
            use_type_invariant(&*self);
        }
        if 4 <= self.data.len() - self.pos {
            let at = self.pos;
            let four = [self.data[at], self.data[at + 1], self.data[at + 2], self.data[at + 3]];
            self.pos = at + 4;
            assert(four@ =~= self.data@.subrange(at as int, at + 4));
            Ok(four)
        } else {
            self.pos = self.data.len();
            Err(DecodeError::TruncatedInput)
        }
    }

    /// Takes the next four bytes as one big-endian unsigned integer.
    pub fn read_integer(&mut self) -> (r: Result<u32, DecodeError>)
        ensures
            final(self).source() == old(self).source(),
            4 <= old(self).left() ==> final(self).position() == old(self).position() + 4 && r is Ok
                && r->Ok_0 == be_u32(old(self).source(), old(self).position()),
            4 > old(self).left() ==> r == Err::<u32, DecodeError>(DecodeError::TruncatedInput)
                && final(self).position() == old(self).source().len(),
    {
        match self.read_four() {
            Ok(four) => {
                let value = (four[0] as u32) * 0x100_0000 + (four[1] as u32) * 0x1_0000 + (
                four[2] as u32) * 0x100 + (four[3] as u32);
                Ok(value)
            },
            Err(e) => Err(e),
        }
    }

    /// Takes the next byte.
    pub fn read_one(&mut self) -> (r: Result<u8, DecodeError>)
        ensures
            final(self).source() == old(self).source(),
            1 <= old(self).left() ==> final(self).position() == old(self).position() + 1 && r
                == Ok::<u8, DecodeError>(old(self).source()[old(self).position() as int]),
            1 > old(self).left() ==> r == Err::<u8, DecodeError>(DecodeError::TruncatedInput)
                && final(self).position() == old(self).source().len(),
    {
        match self.read_bytes(1) {
            Ok(val) => Ok(val[0]),
            Err(e) => Err(e),
        }
    }

    /// Copies `size` bytes that start `offset` bytes into the source. The
    /// cursor plays no part and stays where it is.
    pub fn read_uncompressed(&self, offset: u32, size: usize) -> (r: Result<Vec<u8>, DecodeError>)
        ensures
            offset + size <= self.source().len() ==> r is Ok && r->Ok_0@ == span(
                self.source(),
                offset as nat,
                size as nat,
            ),
            offset + size > self.source().len() ==> r == Err::<Vec<u8>, DecodeError>(
                DecodeError::TruncatedInput,
            ),
    {
        let start = offset as usize;
        if start <= self.data.len() && size <= self.data.len() - start {
            Ok(slice_to_vec(slice_subrange(self.data, start, start + size)))
        } else {
            Err(DecodeError::TruncatedInput)
        }
    }
}

} // verus!
