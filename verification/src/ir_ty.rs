//! The value types of the intermediate representation.

use vstd::prelude::*;
use crate::error::DecodeError;

verus! {

/// The type of a value. Each type is written as one byte, its position in
/// this list.
#[derive(Clone, Copy, Debug, PartialEq, Eq, Structural)]
pub enum Ty {
    /// A truth value, stored as 0 or 1.
    Bool,
    /// A six-bit unsigned integer; the top two bits of its byte are unspecified.
    I6,
    /// A 64-bit integer.
    I64,
    /// A 128-bit integer.
    I128,
    /// A reference to a function.
    FunRef,
    /// A reference to an object.
    Ref,
}

impl Ty {
    /// The number of value types.
    pub const VARIANT_COUNT: usize = 6;

    /// The byte that stands for this type.
    pub open spec fn spec_tag(self) -> u8 {
        match self {
            Ty::Bool => 0,
            Ty::I6 => 1,
            Ty::I64 => 2,
            Ty::I128 => 3,
            Ty::FunRef => 4,
            Ty::Ref => 5,
        }
    }

    /// The type that a byte stands for, if any.
    pub open spec fn spec_decode(t: u8) -> Option<Ty> {
        if t == 0 {
            Some(Ty::Bool)
        } else if t == 1 {
            Some(Ty::I6)
        } else if t == 2 {
            Some(Ty::I64)
        } else if t == 3 {
            Some(Ty::I128)
        } else if t == 4 {
            Some(Ty::FunRef)
        } else if t == 5 {
            Some(Ty::Ref)
        } else {
            None
        }
    }

    /// Whether every byte of `s` stands for a type.
    pub open spec fn all_valid(s: Seq<u8>) -> bool {
        forall|i: int| 0 <= i < s.len() ==> (#[trigger] Ty::spec_decode(s[i])) is Some
    }

    /// The types that the bytes of `s` stand for, where `all_valid(s)`.
    pub open spec fn decode_all(s: Seq<u8>) -> Seq<Ty> {
        Seq::new(s.len(), |i: int| Ty::spec_decode(s[i]).unwrap())
    }

    /// The bytes that stand for the types of `s`.
    pub open spec fn encode_all(s: Seq<Ty>) -> Seq<u8> {
        Seq::new(s.len(), |i: int| s[i].spec_tag())
    }

    pub fn tag(self) -> (t: u8)
        ensures
            t == self.spec_tag(),
            Ty::spec_decode(t) == Some(self),
    {
        match self {
            Ty::Bool => 0,
            Ty::I6 => 1,
            Ty::I64 => 2,
            Ty::I128 => 3,
            Ty::FunRef => 4,
            Ty::Ref => 5,
        }
    }

    /// Reads a type from its byte: a range test, then a lookup.
    pub fn decode(t: u8) -> (r: Result<Ty, DecodeError>)
        ensures
            match Ty::spec_decode(t) {
                Some(ty) => r == Ok::<Ty, DecodeError>(ty),
                None => r == Err::<Ty, DecodeError>(DecodeError::InvalidTag),
            },
            r is Ok <==> (t as int) < Ty::VARIANT_COUNT,
    {
        if t as usize >= Ty::VARIANT_COUNT {
            return Err(DecodeError::InvalidTag);
        }
        match t {
            0 => Ok(Ty::Bool),
            1 => Ok(Ty::I6),
            2 => Ok(Ty::I64),
            3 => Ok(Ty::I128),
            4 => Ok(Ty::FunRef),
            _ => Ok(Ty::Ref),
        }
    }
}

/// Decoding undoes encoding: the byte of a type stands for that type.
pub proof fn lemma_ty_tag_round_trip(ty: Ty)
    ensures
        Ty::spec_decode(ty.spec_tag()) == Some(ty),
{
}

/// A list of types survives being written as bytes and read back.
pub proof fn lemma_ty_list_round_trip(s: Seq<Ty>)
    ensures
        Ty::all_valid(Ty::encode_all(s)),
        Ty::decode_all(Ty::encode_all(s)) == s,
        Ty::encode_all(s).len() == s.len(),
{
    let b = Ty::encode_all(s);
    assert forall|i: int| 0 <= i < b.len() implies (#[trigger] Ty::spec_decode(b[i])) is Some by {
        lemma_ty_tag_round_trip(s[i]);
    }
    assert forall|i: int| 0 <= i < s.len() implies Ty::decode_all(b)[i] == s[i] by {
        lemma_ty_tag_round_trip(s[i]);
    }
    assert(Ty::decode_all(b) =~= s);
}

impl Ty {
    /// The name of the type, as it is written.
    pub open spec fn spec_name(self) -> Seq<char> {
        match self {
            Ty::Bool => "Bool"@,
            Ty::I6 => "I6"@,
            Ty::I64 => "I64"@,
            Ty::I128 => "I128"@,
            Ty::FunRef => "FunRef"@,
            Ty::Ref => "Ref"@,
        }
    }

    /// The name of the type, as it is written.
    pub fn name(self) -> (r: &'static str)
        ensures
            r@ == self.spec_name(),
    {
        match self {
            Ty::Bool => "Bool",
            Ty::I6 => "I6",
            Ty::I64 => "I64",
            Ty::I128 => "I128",
            Ty::FunRef => "FunRef",
            Ty::Ref => "Ref",
        }
    }
}

} // verus!
