//! Small helpers that the other modules share.

use vstd::prelude::*;
use vstd::string::StrSliceExecFns;

verus! {

/// Applies `f` to each item of `src` and gives the results in order.
pub fn map_slice<F, T, U>(src: &[T], f: F) -> (dst: Vec<U>) where F: Fn(&T) -> U
    requires
        forall|i: int| 0 <= i < src@.len() ==> call_requires(f, (&#[trigger] src@[i],)),
    ensures
        dst@.len() == src@.len(),
        forall|i: int| 0 <= i < src@.len() ==> call_ensures(f, (&src@[i],), #[trigger] dst@[i]),
{
    let mut dst: Vec<U> = Vec::new();
    let n = src.len();
    let mut i: usize = 0;
    while i < n
        invariant
            n == src@.len(),
            i <= n,
            dst@.len() == i,
            forall|k: int| 0 <= k < src@.len() ==> call_requires(f, (&#[trigger] src@[k],)),
            forall|k: int| 0 <= k < i ==> call_ensures(f, (&src@[k],), #[trigger] dst@[k]),
        decreases n - i,
    {
        dst.push(f(&src[i]));
        i += 1;
    }
    dst
}

/// The larger of two numbers.
pub fn max(x: usize, y: usize) -> (r: usize)
    ensures
        r >= x,
        r >= y,
        r == x || r == y,
{
    if x >= y {
        x
    } else {
        y
    }
}

/// Tells whether a text holds the character of code zero.
pub fn has_nul(s: &str) -> (r: bool)
    ensures
        r == s@.contains('\0'),
{
    let n = s.unicode_len();
    let mut i: usize = 0;
    while i < n
        invariant
            n == s@.len(),
            i <= n,
            forall|j: int| 0 <= j < i ==> s@[j] != '\0',
        decreases n - i,
    {
        if s.get_char(i) == '\0' {
            return true;
        }
        i += 1;
    }
    false
}

} // verus!
