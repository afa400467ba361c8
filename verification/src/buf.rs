//! A cursor that reads a borrowed byte range from the front, and a buffer
//! that bytes are appended to.

use vstd::prelude::*;
use vstd::slice::slice_subrange;
use crate::error::DecodeError;
use crate::slice_ext::{
    le_u16, le_u32, le_u64, overwrite, u16_le, u32_le, u64_le, u8_le, ByteSliceExt, SliceExt,
};

verus! {

/// A sequential reader over a borrowed byte range. Each read takes bytes off
/// the front of what remains.
pub struct ByteCursor<'a>(&'a [u8]);

impl<'a> View for ByteCursor<'a> {
    type V = Seq<u8>;

    /// The bytes that remain to be read.
    closed spec fn view(&self) -> Seq<u8> {
        self.0@
    }
}

/// What remains of `s` once its first `n` items are taken.
pub open spec fn rest(s: Seq<u8>, n: int) -> Seq<u8> {
    s.subrange(n, s.len() as int)
}

impl<'a> ByteCursor<'a> {
    pub fn new(t: &'a [u8]) -> (r: Self)
        ensures
            r@ == t@,
    {
        ByteCursor(t)
    }

    /// Whether nothing remains, so that no further item can be read.
    pub fn is_empty(&self) -> (r: bool)
        ensures
            r == (self@.len() == 0),
    {
        self.0.len() == 0
    }

    /// The number of bytes that remain.
    pub fn remaining(&self) -> (r: usize)
        ensures
            r == self@.len(),
    {
        self.0.len()
    }

    /// The bytes that remain, without reading them.
    pub fn as_slice(&self) -> (r: &'a [u8])
        ensures
            r@ == self@,
    {
        self.0
    }

    /// Reads exactly `N` bytes. Where fewer remain, nothing is read.
    pub fn pop_array<const N: usize>(&mut self) -> (r: Result<&'a [u8; N], DecodeError>)
        ensures
            N <= old(self)@.len() ==> r is Ok && r.unwrap()@ == old(self)@.subrange(0, N as int)
                && final(self)@ == rest(old(self)@, N as int),
            N > old(self)@.len() ==> r == Err::<&[u8; N], DecodeError>(DecodeError::Truncated)
                && final(self)@ == old(self)@,
    {
        let s: &'a [u8] = self.0;
        if N <= s.len() {
            let (x, y) = s.split_array::<N>();
            self.0 = y;
            Ok(x)
        } else {
            Err(DecodeError::Truncated)
        }
    }

    /// Reads `k` bytes. Where fewer remain, nothing is read.
    pub fn pop_slice(&mut self, k: usize) -> (r: Result<&'a [u8], DecodeError>)
        ensures
            k <= old(self)@.len() ==> r is Ok && r.unwrap()@ == old(self)@.subrange(0, k as int)
                && final(self)@ == rest(old(self)@, k as int),
            k > old(self)@.len() ==> r == Err::<&[u8], DecodeError>(DecodeError::Truncated)
                && final(self)@ == old(self)@,
    {
        let s: &'a [u8] = self.0;
        if k <= s.len() {
            self.0 = slice_subrange(s, k, s.len());
            Ok(slice_subrange(s, 0, k))
        } else {
            Err(DecodeError::Truncated)
        }
    }

    /// Reads one byte.
    pub fn pop_u8(&mut self) -> (r: Result<u8, DecodeError>)
        ensures
            1 <= old(self)@.len() ==> r == Ok::<u8, DecodeError>(old(self)@[0]) && final(self)@
                == rest(old(self)@, 1),
            1 > old(self)@.len() ==> r == Err::<u8, DecodeError>(DecodeError::Truncated) && final(self)@ == old(self)@,
    {
        let s: &'a [u8] = self.0;
        if 1 <= s.len() {
            self.0 = slice_subrange(s, 1, s.len());
            Ok(s.get_u8(0))
        } else {
            Err(DecodeError::Truncated)
        }
    }

    /// Reads a little-endian 16-bit integer.
    pub fn pop_u16(&mut self) -> (r: Result<u16, DecodeError>)
        ensures
            2 <= old(self)@.len() ==> r == Ok::<u16, DecodeError>(
                le_u16(old(self)@.subrange(0, 2)),
            ) && final(self)@ == rest(old(self)@, 2),
            2 > old(self)@.len() ==> r == Err::<u16, DecodeError>(DecodeError::Truncated) && final(self)@ == old(self)@,
    {
        let s: &'a [u8] = self.0;
        if 2 <= s.len() {
            self.0 = slice_subrange(s, 2, s.len());
            Ok(s.get_u16(0))
        } else {
            Err(DecodeError::Truncated)
        }
    }

    /// Reads a little-endian 32-bit integer.
    pub fn pop_u32(&mut self) -> (r: Result<u32, DecodeError>)
        ensures
            4 <= old(self)@.len() ==> r == Ok::<u32, DecodeError>(
                le_u32(old(self)@.subrange(0, 4)),
            ) && final(self)@ == rest(old(self)@, 4),
            4 > old(self)@.len() ==> r == Err::<u32, DecodeError>(DecodeError::Truncated) && final(self)@ == old(self)@,
    {
        let s: &'a [u8] = self.0;
        if 4 <= s.len() {
            self.0 = slice_subrange(s, 4, s.len());
            Ok(s.get_u32(0))
        } else {
            Err(DecodeError::Truncated)
        }
    }

    /// Reads a little-endian 64-bit integer.
    pub fn pop_u64(&mut self) -> (r: Result<u64, DecodeError>)
        ensures
            8 <= old(self)@.len() ==> r == Ok::<u64, DecodeError>(
                le_u64(old(self)@.subrange(0, 8)),
            ) && final(self)@ == rest(old(self)@, 8),
            8 > old(self)@.len() ==> r == Err::<u64, DecodeError>(DecodeError::Truncated) && final(self)@ == old(self)@,
    {
        let s: &'a [u8] = self.0;
        if 8 <= s.len() {
            self.0 = slice_subrange(s, 8, s.len());
            Ok(s.get_u64(0))
        } else {
            Err(DecodeError::Truncated)
        }
    }
}

/// A growable byte buffer. Integers are appended, or written over bytes that
/// are already there, least significant byte first.
pub struct ByteBuf(Vec<u8>);

impl View for ByteBuf {
    type V = Seq<u8>;

    /// The bytes written so far.
    closed spec fn view(&self) -> Seq<u8> {
        self.0@
    }
}

impl ByteBuf {
    pub fn new() -> (r: Self)
        ensures
            r@ == Seq::<u8>::empty(),
    {
        ByteBuf(Vec::new())
    }

    /// Appends the `N` bytes of `value`.
    pub fn put_array<const N: usize>(&mut self, value: &[u8; N])
        ensures
            final(self)@ == old(self)@ + value@,
    {
        self.0.extend_from_slice(value.as_slice());
    }

    /// Appends the bytes of `value`.
    pub fn put_slice(&mut self, value: &[u8])
        ensures
            final(self)@ == old(self)@ + value@,
    {
        self.0.extend_from_slice(value);
    }

    pub fn len(&self) -> (r: usize)
        ensures
            r == self@.len(),
    {
        self.0.len()
    }

    /// Forgets all but the first `len` bytes.
    pub fn truncate(&mut self, len: usize)
        requires
            len <= old(self)@.len(),
        ensures
            final(self)@ == old(self)@.subrange(0, len as int),
    {
        self.0.truncate(len);
    }

    /// The bytes written so far.
    pub fn as_slice(&self) -> (r: &[u8])
        ensures
            r@ == self@,
    {
        self.0.as_slice()
    }

    /// Gives up the buffer for the bytes written into it.
    pub fn into_bytes(self) -> (r: Vec<u8>)
        ensures
            r@ == self@,
    {
        self.0
    }

    pub fn put_u8(&mut self, value: u8)
        ensures
            final(self)@ == old(self)@ + u8_le(value),
    {
        self.0.push(value);
        assert(self.0@ =~= old(self)@ + u8_le(value));
    }

    pub fn put_u16(&mut self, value: u16)
        ensures
            final(self)@ == old(self)@ + u16_le(value),
    {
        self.0.push((value % 0x100) as u8);
        self.0.push((value / 0x100) as u8);
        assert(self.0@ =~= old(self)@ + u16_le(value));
    }

    pub fn put_u32(&mut self, value: u32)
        ensures
            final(self)@ == old(self)@ + u32_le(value),
    {
        self.0.push((value % 0x100) as u8);
        self.0.push(((value / 0x100) % 0x100) as u8);
        self.0.push(((value / 0x1_0000) % 0x100) as u8);
        self.0.push((value / 0x100_0000) as u8);
        assert(self.0@ =~= old(self)@ + u32_le(value));
    }

    pub fn put_u64(&mut self, value: u64)
        ensures
            final(self)@ == old(self)@ + u64_le(value),
    {
        self.put_u32((value % 0x1_0000_0000) as u32);
        self.put_u32((value / 0x1_0000_0000) as u32);
        assert(self.0@ =~= old(self)@ + u64_le(value));
    }

    /// Writes `value` over the byte at `offset`.
    pub fn set_u8(&mut self, offset: usize, value: u8)
        requires
            offset + 1 <= old(self)@.len(),
        ensures
            final(self)@ == overwrite(old(self)@, offset as int, u8_le(value)),
    {
        self.0.as_mut_slice().set_u8(offset, value);
    }

    /// Writes `value` over the two bytes at `offset`.
    pub fn set_u16(&mut self, offset: usize, value: u16)
        requires
            offset + 2 <= old(self)@.len(),
        ensures
            final(self)@ == overwrite(old(self)@, offset as int, u16_le(value)),
    {
        self.0.as_mut_slice().set_u16(offset, value);
    }

    /// Writes `value` over the four bytes at `offset`.
    pub fn set_u32(&mut self, offset: usize, value: u32)
        requires
            offset + 4 <= old(self)@.len(),
        ensures
            final(self)@ == overwrite(old(self)@, offset as int, u32_le(value)),
    {
        self.0.as_mut_slice().set_u32(offset, value);
    }

    /// Writes `value` over the eight bytes at `offset`.
    pub fn set_u64(&mut self, offset: usize, value: u64)
        requires
            offset + 8 <= old(self)@.len(),
        ensures
            final(self)@ == overwrite(old(self)@, offset as int, u64_le(value)),
    {
        self.0.as_mut_slice().set_u64(offset, value);
    }
}

} // verus!
