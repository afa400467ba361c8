//! Fixed-size reads and writes on slices, and the little-endian reading of
//! byte sequences.

use vstd::prelude::*;
use vstd::slice::slice_subrange;
use vstd::utf8::{decode_utf8, valid_utf8};

verus! {

/// The 16-bit integer that two bytes hold, least significant byte first.
pub open spec fn le_u16(s: Seq<u8>) -> u16
    recommends
        s.len() == 2,
{
    (s[0] as int + 0x100 * (s[1] as int)) as u16
}

/// The 32-bit integer that four bytes hold, least significant byte first.
pub open spec fn le_u32(s: Seq<u8>) -> u32
    recommends
        s.len() == 4,
{
    (s[0] as int + 0x100 * (s[1] as int) + 0x1_0000 * (s[2] as int) + 0x100_0000 * (s[3] as int)) as u32
}

/// The 64-bit integer that eight bytes hold, least significant byte first.
pub open spec fn le_u64(s: Seq<u8>) -> u64
    recommends
        s.len() == 8,
{
    (le_u32(s.subrange(0, 4)) as int + 0x1_0000_0000 * (le_u32(s.subrange(4, 8)) as int)) as u64
}

/// The one byte of an 8-bit integer.
pub open spec fn u8_le(x: u8) -> Seq<u8> {
    seq![x]
}

/// The two bytes of a 16-bit integer, least significant first.
pub open spec fn u16_le(x: u16) -> Seq<u8> {
    seq![(x % 0x100) as u8, (x / 0x100) as u8]
}

/// The four bytes of a 32-bit integer, least significant first.
pub open spec fn u32_le(x: u32) -> Seq<u8> {
    seq![
        (x % 0x100) as u8,
        ((x / 0x100) % 0x100) as u8,
        ((x / 0x1_0000) % 0x100) as u8,
        (x / 0x100_0000) as u8,
    ]
}

/// The eight bytes of a 64-bit integer, least significant first.
pub open spec fn u64_le(x: u64) -> Seq<u8> {
    u32_le((x % 0x1_0000_0000) as u32) + u32_le((x / 0x1_0000_0000) as u32)
}

/// Reading undoes writing, for two bytes.
pub proof fn lemma_le_u16_of_bytes(x: u16)
    ensures
        u16_le(x).len() == 2,
        le_u16(u16_le(x)) == x,
{
}

/// Reading undoes writing, for four bytes.
pub proof fn lemma_le_u32_of_bytes(x: u32)
    ensures
        u32_le(x).len() == 4,
        le_u32(u32_le(x)) == x,
{
    let q1 = x as int / 0x100;
    let q2 = x as int / 0x1_0000;
    let q3 = x as int / 0x100_0000;
    assert(q2 == q1 / 0x100);
    assert(q3 == q2 / 0x100);
    assert(x == 0x100 * q1 + x % 0x100);
    assert(q1 == 0x100 * q2 + q1 % 0x100);
    assert(q2 == 0x100 * q3 + q2 % 0x100);
}

/// Reading undoes writing, for eight bytes.
pub proof fn lemma_le_u64_of_bytes(x: u64)
    ensures
        u64_le(x).len() == 8,
        le_u64(u64_le(x)) == x,
{
    let lo = (x % 0x1_0000_0000) as u32;
    let hi = (x / 0x1_0000_0000) as u32;
    lemma_le_u32_of_bytes(lo);
    lemma_le_u32_of_bytes(hi);
    assert(u64_le(x).subrange(0, 4) =~= u32_le(lo));
    assert(u64_le(x).subrange(4, 8) =~= u32_le(hi));
}

/// Views a slice as an array of `N` items: `TryFrom<&[T]>` for `&[T; N]`,
/// which succeeds exactly when the slice has `N` items and then refers to
/// the same items.
#[verifier::external_body]
fn slice_as_array<'a, T, const N: usize>(s: &'a [T]) -> (r: Option<&'a [T; N]>)
    ensures
        r is Some <==> s@.len() == N,
        r matches Some(a) ==> a@ == s@,
{
    <&[T; N]>::try_from(s).ok()
}

/// Views a mutable slice of `N` items as an array: `TryFrom<&mut [T]>` for
/// `&mut [T; N]`, which succeeds exactly when the slice has `N` items. What
/// is written through the array is written into the slice.
#[verifier::external_body]
fn slice_as_array_mut<'a, T, const N: usize>(s: &'a mut [T]) -> (r: Option<&'a mut [T; N]>)
    ensures
        r is Some <==> old(s)@.len() == N,
        r matches Some(a) ==> a@ == old(s)@ && final(s)@ == final(a)@,
        r is None ==> final(s)@ == old(s)@,
{
    <&mut [T; N]>::try_from(s).ok()
}

/// Reads text from bytes: `core::str::from_utf8`, which succeeds exactly on
/// valid UTF-8 and then gives the characters that the bytes encode.
#[verifier::external_body]
pub(crate) fn utf8_text<'a>(b: &'a [u8]) -> (r: Option<&'a str>)
    ensures
        r is Some <==> valid_utf8(b@),
        r matches Some(s) ==> s@ == decode_utf8(b@),
{
    core::str::from_utf8(b).ok()
}

/// Reads of a fixed number of items from a slice.
pub trait SliceExt<T>: View<V = Seq<T>> {
    /// The `N` items that start at `offset`, for writing.
    fn get_array_mut<const N: usize>(&mut self, offset: usize) -> (r: &mut [T; N])
        requires
            offset + N <= old(self)@.len(),
        ensures
            r@ == old(self)@.subrange(offset as int, offset + N),
            final(self)@ == old(self)@.subrange(0, offset as int) + final(r)@ + old(self)@.subrange(
                offset + N,
                old(self)@.len() as int,
            ),
    ;

    /// The `N` items that start at `offset`.
    fn get_array<const N: usize>(&self, offset: usize) -> (r: &[T; N])
        requires
            offset + N <= self@.len(),
        ensures
            r@ == self@.subrange(offset as int, offset + N),
    ;

    /// The first `N` items, and the rest.
    fn split_array<const N: usize>(&self) -> (r: (&[T; N], &[T]))
        requires
            N <= self@.len(),
        ensures
            r.0@ == self@.subrange(0, N as int),
            r.1@ == self@.subrange(N as int, self@.len() as int),
    ;
}

impl<T> SliceExt<T> for [T] {
    fn get_array_mut<const N: usize>(&mut self, offset: usize) -> (r: &mut [T; N]) {
        let _ = self.len();
        let (_, rest) = self.split_at_mut(offset);
        let (mid, _) = rest.split_at_mut(N);
        slice_as_array_mut(mid).unwrap()
    }

    fn get_array<const N: usize>(&self, offset: usize) -> (r: &[T; N]) {
        let _ = self.len();
        slice_as_array(slice_subrange(self, offset, offset + N)).unwrap()
    }

    fn split_array<const N: usize>(&self) -> (r: (&[T; N], &[T])) {
        let x = slice_as_array(slice_subrange(self, 0, N)).unwrap();
        (x, slice_subrange(self, N, self.len()))
    }
}

/// Reads that take items off the front of a borrowed slice.
pub trait SliceRefExt<'a, T>: View<V = Seq<T>> {
    /// Takes the first `N` items off the front.
    fn pop_array<const N: usize>(&mut self) -> (r: &'a [T; N])
        requires
            N <= old(self)@.len(),
        ensures
            r@ == old(self)@.subrange(0, N as int),
            final(self)@ == old(self)@.subrange(N as int, old(self)@.len() as int),
    ;

    /// Takes the first `len` items off the front.
    fn pop_slice(&mut self, len: usize) -> (r: &'a [T])
        requires
            len <= old(self)@.len(),
        ensures
            r@ == old(self)@.subrange(0, len as int),
            final(self)@ == old(self)@.subrange(len as int, old(self)@.len() as int),
    ;
}

impl<'a, T> SliceRefExt<'a, T> for &'a [T] {
    fn pop_array<const N: usize>(&mut self) -> (r: &'a [T; N]) {
        let s: &'a [T] = *self;
        let x = slice_as_array(slice_subrange(s, 0, N)).unwrap();
        *self = slice_subrange(s, N, s.len());
        x
    }

    fn pop_slice(&mut self, len: usize) -> (r: &'a [T]) {
        let s: &'a [T] = *self;
        let x = slice_subrange(s, 0, len);
        *self = slice_subrange(s, len, s.len());
        x
    }
}

/// Little-endian integers read from, and written into, a byte slice at an
/// offset.
pub trait ByteSliceExt: View<V = Seq<u8>> {
    fn get_u8(&self, offset: usize) -> (r: u8)
        requires
            offset + 1 <= self@.len(),
        ensures
            r == self@[offset as int],
    ;

    fn get_u16(&self, offset: usize) -> (r: u16)
        requires
            offset + 2 <= self@.len(),
        ensures
            r == le_u16(self@.subrange(offset as int, offset + 2)),
    ;

    fn get_u32(&self, offset: usize) -> (r: u32)
        requires
            offset + 4 <= self@.len(),
        ensures
            r == le_u32(self@.subrange(offset as int, offset + 4)),
    ;

    fn get_u64(&self, offset: usize) -> (r: u64)
        requires
            offset + 8 <= self@.len(),
        ensures
            r == le_u64(self@.subrange(offset as int, offset + 8)),
    ;

    fn set_u8(&mut self, offset: usize, value: u8)
        requires
            offset + 1 <= old(self)@.len(),
        ensures
            final(self)@ == overwrite(old(self)@, offset as int, u8_le(value)),
    ;

    fn set_u16(&mut self, offset: usize, value: u16)
        requires
            offset + 2 <= old(self)@.len(),
        ensures
            final(self)@ == overwrite(old(self)@, offset as int, u16_le(value)),
    ;

    fn set_u32(&mut self, offset: usize, value: u32)
        requires
            offset + 4 <= old(self)@.len(),
        ensures
            final(self)@ == overwrite(old(self)@, offset as int, u32_le(value)),
    ;

    fn set_u64(&mut self, offset: usize, value: u64)
        requires
            offset + 8 <= old(self)@.len(),
        ensures
            final(self)@ == overwrite(old(self)@, offset as int, u64_le(value)),
    ;
}

/// The sequence `s` with the items from `offset` on replaced by those of
/// `patch`; its length is that of `s`.
pub open spec fn overwrite(s: Seq<u8>, offset: int, patch: Seq<u8>) -> Seq<u8>
    recommends
        0 <= offset,
        offset + patch.len() <= s.len(),
{
    Seq::new(
        s.len(),
        |i: int|
            if offset <= i < offset + patch.len() {
                patch[i - offset]
            } else {
                s[i]
            },
    )
}

impl ByteSliceExt for [u8] {
    fn get_u8(&self, offset: usize) -> (r: u8) {
        self[offset]
    }

    fn get_u16(&self, offset: usize) -> (r: u16) {
        let a = self[offset] as u16;
        let b = self[offset + 1] as u16;
        a + 0x100 * b
    }

    fn get_u32(&self, offset: usize) -> (r: u32) {
        let a = self[offset] as u32;
        let b = self[offset + 1] as u32;
        let c = self[offset + 2] as u32;
        let d = self[offset + 3] as u32;
        a + 0x100 * b + 0x1_0000 * c + 0x100_0000 * d
    }

    fn get_u64(&self, offset: usize) -> (r: u64) {
        let _ = self.len();
        let lo = self.get_u32(offset) as u64;
        let hi = self.get_u32(offset + 4) as u64;
        assert(self@.subrange(offset as int, offset + 8).subrange(0, 4) =~= self@.subrange(
            offset as int,
            offset + 4,
        ));
        assert(self@.subrange(offset as int, offset + 8).subrange(4, 8) =~= self@.subrange(
            offset + 4,
            offset + 8,
        ));
        lo + 0x1_0000_0000 * hi
    }

    fn set_u8(&mut self, offset: usize, value: u8) {
        self[offset] = value;
        assert(self@ =~= overwrite(old(self)@, offset as int, u8_le(value)));
    }

    fn set_u16(&mut self, offset: usize, value: u16) {
        self[offset] = (value % 0x100) as u8;
        self[offset + 1] = (value / 0x100) as u8;
        assert(self@ =~= overwrite(old(self)@, offset as int, u16_le(value)));
    }

    fn set_u32(&mut self, offset: usize, value: u32) {
        self[offset] = (value % 0x100) as u8;
        self[offset + 1] = ((value / 0x100) % 0x100) as u8;
        self[offset + 2] = ((value / 0x1_0000) % 0x100) as u8;
        self[offset + 3] = (value / 0x100_0000) as u8;
        assert(self@ =~= overwrite(old(self)@, offset as int, u32_le(value)));
    }

    fn set_u64(&mut self, offset: usize, value: u64) {
        let lo = (value % 0x1_0000_0000) as u32;
        let hi = (value / 0x1_0000_0000) as u32;
        let _ = self.len();
        proof {
            lemma_le_u64_of_bytes(value);
            lemma_le_u32_of_bytes(lo);
            lemma_le_u32_of_bytes(hi);
        }
        self.set_u32(offset, lo);
        self.set_u32(offset + 4, hi);
        assert(self@ =~= overwrite(old(self)@, offset as int, u64_le(value)));
    }
}

/// Little-endian integers taken off the front of a borrowed byte slice.
pub trait ByteSliceRefExt: View<V = Seq<u8>> {
    fn pop_u8(&mut self) -> (r: u8)
        requires
            1 <= old(self)@.len(),
        ensures
            r == old(self)@[0],
            final(self)@ == old(self)@.subrange(1, old(self)@.len() as int),
    ;

    fn pop_u16(&mut self) -> (r: u16)
        requires
            2 <= old(self)@.len(),
        ensures
            r == le_u16(old(self)@.subrange(0, 2)),
            final(self)@ == old(self)@.subrange(2, old(self)@.len() as int),
    ;

    fn pop_u32(&mut self) -> (r: u32)
        requires
            4 <= old(self)@.len(),
        ensures
            r == le_u32(old(self)@.subrange(0, 4)),
            final(self)@ == old(self)@.subrange(4, old(self)@.len() as int),
    ;
}

impl ByteSliceRefExt for &[u8] {
    fn pop_u8(&mut self) -> (r: u8) {
        let s: &[u8] = *self;
        let r = s.get_u8(0);
        *self = slice_subrange(s, 1, s.len());
        r
    }

    fn pop_u16(&mut self) -> (r: u16) {
        let s: &[u8] = *self;
        let r = s.get_u16(0);
        *self = slice_subrange(s, 2, s.len());
        r
    }

    fn pop_u32(&mut self) -> (r: u32) {
        let s: &[u8] = *self;
        let r = s.get_u32(0);
        *self = slice_subrange(s, 4, s.len());
        r
    }
}

} // verus!
