//! The two nesting conventions of the wire format: records whose fields are
//! found through a table of end offsets, and runs of items that each carry
//! their length in front.

use vstd::prelude::*;
use vstd::slice::slice_subrange;
use crate::error::DecodeError;
use crate::slice_ext::{le_u32, ByteSliceExt, ByteSliceRefExt, SliceExt};

verus! {

/// Where the payload of field `i` begins in a record `a` of `n` fields.
///
/// The record opens with `n - 1` end offsets of four bytes each, counted from
/// the end of that table. Field 0 begins right after the table; every other
/// field begins where the one before it ends.
pub open spec fn field_start(a: Seq<u8>, n: int, i: int) -> int {
    if i == 0 {
        4 * (n - 1)
    } else {
        4 * (n - 1) + le_u32(a.subrange(4 * i - 4, 4 * i))
    }
}

/// Where the payload of field `i` ends in a record `a` of `n` fields: at its
/// end offset, or for the last field at the end of the record.
pub open spec fn field_end(a: Seq<u8>, n: int, i: int) -> int {
    if i == n - 1 {
        a.len() as int
    } else {
        4 * (n - 1) + le_u32(a.subrange(4 * i, 4 * i + 4))
    }
}

/// Field `i` of the record `a` of `n` fields.
///
/// The record is truncated where it is shorter than its offset table, and
/// its length is invalid where the field's bounds are out of order or reach
/// past the record.
pub open spec fn spec_field(a: Seq<u8>, n: int, i: int) -> Result<Seq<u8>, DecodeError> {
    if a.len() < 4 * (n - 1) {
        Err(DecodeError::Truncated)
    } else if !(field_start(a, n, i) <= field_end(a, n, i) <= a.len()) {
        Err(DecodeError::InvalidLength)
    } else {
        Ok(a.subrange(field_start(a, n, i), field_end(a, n, i)))
    }
}

/// Field `I` of a record of `N` fields, found without reading the others.
pub fn field<const N: usize, const I: usize>(a: &[u8]) -> (r: Result<&[u8], DecodeError>)
    requires
        I < N,
        4 * N <= usize::MAX,
    ensures
        match spec_field(a@, N as int, I as int) {
            Ok(s) => r is Ok && r.unwrap()@ == s,
            Err(e) => r == Err::<&[u8], DecodeError>(e),
        },
{
    let base: usize = 4 * (N - 1);
    let len = a.len();
    if len < base {
        return Err(DecodeError::Truncated);
    }
    // The offsets count from the end of the table.
    let room: usize = len - base;
    let u: usize = if I == 0 {
        0
    } else {
        a.get_u32(4 * I - 4) as usize
    };
    let v: usize = if I == N - 1 {
        room
    } else {
        a.get_u32(4 * I) as usize
    };
    if u <= v && v <= room {
        Ok(slice_subrange(a, base + u, base + v))
    } else {
        Err(DecodeError::InvalidLength)
    }
}

/// Takes one byte off the front of `a`.
pub fn pop_u8<'a, 'b>(a: &'a mut &'b [u8]) -> (r: u8)
    requires
        1 <= old(a)@.len(),
    ensures
        r == old(a)@[0],
        final(a)@ == old(a)@.subrange(1, old(a)@.len() as int),
{
    a.pop_u8()
}

/// Takes a little-endian 32-bit integer off the front of `a`.
pub fn pop_32<'a, 'b>(a: &'a mut &'b [u8]) -> (r: u32)
    requires
        4 <= old(a)@.len(),
    ensures
        r == le_u32(old(a)@.subrange(0, 4)),
        final(a)@ == old(a)@.subrange(4, old(a)@.len() as int),
{
    a.pop_u32()
}

/// The first item of a run of length-prefixed items, and the bytes after it.
///
/// Each item is a count of four bytes followed by that many payload bytes.
/// There is no item in an empty run; the run is truncated where it is too
/// short for the count, or for the payload that the count announces.
pub open spec fn first_variable_sized(s: Seq<u8>) -> Option<Result<(Seq<u8>, Seq<u8>), DecodeError>> {
    if s.len() == 0 {
        None
    } else if s.len() < 4 {
        Some(Err(DecodeError::Truncated))
    } else if s.len() - 4 < le_u32(s.subrange(0, 4)) {
        Some(Err(DecodeError::Truncated))
    } else {
        let k = le_u32(s.subrange(0, 4)) as int;
        Some(Ok((s.subrange(4, 4 + k), s.subrange(4 + k, s.len() as int))))
    }
}

/// All the items of a run of length-prefixed items, in order.
pub open spec fn all_variable_sized(s: Seq<u8>) -> Result<Seq<Seq<u8>>, DecodeError>
    decreases s.len(),
{
    match first_variable_sized(s) {
        None => Ok(Seq::empty()),
        Some(Err(e)) => Err(e),
        Some(Ok((item, rest))) => match all_variable_sized(rest) {
            Ok(items) => Ok(seq![item] + items),
            Err(e) => Err(e),
        },
    }
}

/// The first item of a run of items of `n` bytes each, and the bytes after it.
///
/// There is no item in an empty run; the run's length is invalid where fewer
/// than `n` bytes are left over.
pub open spec fn first_constant_sized(s: Seq<u8>, n: int) -> Option<Result<(Seq<u8>, Seq<u8>), DecodeError>> {
    if s.len() == 0 {
        None
    } else if s.len() < n {
        Some(Err(DecodeError::InvalidLength))
    } else {
        Some(Ok((s.subrange(0, n), s.subrange(n, s.len() as int))))
    }
}

/// Walks a run of length-prefixed items.
pub fn iter_variable_sized<'a>(a: &'a [u8]) -> (r: IterVariableSized<'a>)
    ensures
        r@ == a@,
{
    IterVariableSized(a)
}

/// Walks a run of items of `N` bytes each.
pub fn iter_constant_sized<'a, const N: usize>(a: &'a [u8]) -> (r: IterConstantSized<'a, N>)
    requires
        N > 0,
    ensures
        r@ == a@,
{
    IterConstantSized(a)
}

/// A position in a run of length-prefixed items.
#[derive(Clone, Copy)]
pub struct IterVariableSized<'a>(&'a [u8]);

impl<'a> View for IterVariableSized<'a> {
    type V = Seq<u8>;

    /// The bytes not yet walked.
    closed spec fn view(&self) -> Seq<u8> {
        self.0@
    }
}

impl<'a> IterVariableSized<'a> {
    /// The next item. After an error nothing is left to walk.
    pub fn next(&mut self) -> (r: Option<Result<&'a [u8], DecodeError>>)
        ensures
            match first_variable_sized(old(self)@) {
                None => r is None && final(self)@ == old(self)@,
                Some(Err(e)) => r == Some(Err::<&[u8], DecodeError>(e)) && final(self)@
                    == Seq::<u8>::empty(),
                Some(Ok((item, rest))) => r is Some && r.unwrap() is Ok && r.unwrap().unwrap()@
                    == item && final(self)@ == rest,
            },
    {
        let s: &'a [u8] = self.0;
        let len = s.len();
        if len == 0 {
            return None;
        }
        if len < 4 {
            self.0 = slice_subrange(s, len, len);
            return Some(Err(DecodeError::Truncated));
        }
        let k = s.get_u32(0);
        if ((len - 4) as u64) < k as u64 {
            self.0 = slice_subrange(s, len, len);
            return Some(Err(DecodeError::Truncated));
        }
        let k = k as usize;
        self.0 = slice_subrange(s, 4 + k, len);
        Some(Ok(slice_subrange(s, 4, 4 + k)))
    }
}

/// A position in a run of items of `N` bytes each.
#[derive(Clone, Copy)]
pub struct IterConstantSized<'a, const N: usize>(&'a [u8]);

impl<'a, const N: usize> View for IterConstantSized<'a, N> {
    type V = Seq<u8>;

    /// The bytes not yet walked.
    closed spec fn view(&self) -> Seq<u8> {
        self.0@
    }
}

impl<'a, const N: usize> IterConstantSized<'a, N> {
    #[verifier::type_invariant]
    spec fn item_size_positive(self) -> bool {
        N > 0
    }

    /// The next item. After an error nothing is left to walk.
    pub fn next(&mut self) -> (r: Option<Result<&'a [u8; N], DecodeError>>)
        ensures
            match first_constant_sized(old(self)@, N as int) {
                None => r is None && final(self)@ == old(self)@,
                Some(Err(e)) => r == Some(Err::<&[u8; N], DecodeError>(e)) && final(self)@
                    == Seq::<u8>::empty(),
                Some(Ok((item, rest))) => r is Some && r.unwrap() is Ok && r.unwrap().unwrap()@
                    == item && final(self)@ == rest,
            },
            final(self)@.len() < old(self)@.len() || r is None,
    {
        proof {
            use_type_invariant(&*self);
        }
        let s: &'a [u8] = self.0;
        let len = s.len();
        if len == 0 {
            return None;
        }
        if len < N {
            self.0 = slice_subrange(s, len, len);
            return Some(Err(DecodeError::InvalidLength));
        }
        let (x, y) = s.split_array::<N>();
        self.0 = y;
        Some(Ok(x))
    }
}

} // verus!
