//! A six-bit unsigned integer stored in one byte.

use vstd::prelude::*;

verus! {

/// An unsigned integer in the range `0..64`.
///
/// The value is kept in a byte whose two most significant bits are always
/// clear; converting from a `u8` discards them.
#[allow(non_camel_case_types)]
#[derive(Clone, Copy, Debug, PartialEq, Eq, Structural)]
pub struct u6(u8);

impl View for u6 {
    type V = u8;

    /// The numeric value.
    closed spec fn view(&self) -> u8 {
        self.0
    }
}

impl u6 {
    #[verifier::type_invariant]
    spec fn in_range(self) -> bool {
        self.0 < 64
    }

    /// The numeric value, which is always below 64.
    pub fn value(self) -> (r: u8)
        ensures
            r == self@,
            r < 64,
    {
        proof {
            use_type_invariant(&self);
        }
        self.0
    }
}

impl From<u8> for u6 {
    fn from(x: u8) -> (r: Self)
        ensures
            r@ == x % 64,
    {
        assert(x & 0x3f == x % 64 && x & 0x3f < 64) by (bit_vector);
        u6(x & 0x3f)
    }
}

impl vstd::std_specs::convert::FromSpecImpl<u8> for u6 {
    open spec fn obeys_from_spec() -> bool {
        true
    }

    closed spec fn from_spec(x: u8) -> Self {
        u6((x % 64) as u8)
    }
}

impl From<u6> for u8 {
    fn from(x: u6) -> (r: u8)
        ensures
            r == x@,
            r < 64,
    {
        x.value()
    }
}

impl vstd::std_specs::convert::FromSpecImpl<u6> for u8 {
    open spec fn obeys_from_spec() -> bool {
        true
    }

    closed spec fn from_spec(x: u6) -> u8 {
        x.0
    }
}

} // verus!
