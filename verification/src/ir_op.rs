//! The opcode catalogue: three tables of primitive operations, each with a
//! fixed signature of operand and result types.

use vstd::prelude::*;
use crate::error::DecodeError;
use crate::ir_ty::Ty;

verus! {

/// The operations of one operand.
#[derive(Clone, Copy, Debug, PartialEq, Eq, Structural)]
pub enum Op11 {
    /// Logical negation.
    BoolNot,
    /// The high 64 bits of a 128-bit integer.
    I128HiI64,
    /// The low 64 bits of a 128-bit integer.
    I128ToI64,
    /// Absolute value.
    I64Abs,
    /// Bitwise complement.
    I64BitNot,
    /// Count of leading zero bits.
    I64Clz,
    /// Count of trailing zero bits.
    I64Ctz,
    /// Whether the operand differs from zero.
    I64IsNonZero,
    /// Arithmetic negation.
    I64Neg,
    /// Count of set bits.
    I64Popcount,
    /// The bits in reverse order.
    I64RevBits,
    /// The bytes in reverse order.
    I64RevBytes,
    /// The low six bits.
    I64ToI6,
}

impl Op11 {
    /// The number of operations in this table.
    pub const VARIANT_COUNT: usize = 13;

    /// The byte that stands for this operation: its position in the table.
    pub open spec fn spec_tag(self) -> u8 {
        match self {
            Op11::BoolNot => 0,
            Op11::I128HiI64 => 1,
            Op11::I128ToI64 => 2,
            Op11::I64Abs => 3,
            Op11::I64BitNot => 4,
            Op11::I64Clz => 5,
            Op11::I64Ctz => 6,
            Op11::I64IsNonZero => 7,
            Op11::I64Neg => 8,
            Op11::I64Popcount => 9,
            Op11::I64RevBits => 10,
            Op11::I64RevBytes => 11,
            Op11::I64ToI6 => 12,
        }
    }

    /// The operation that a byte stands for, if any.
    pub open spec fn spec_decode(t: u8) -> Option<Op11> {
        if t == 0 {
            Some(Op11::BoolNot)
        } else if t == 1 {
            Some(Op11::I128HiI64)
        } else if t == 2 {
            Some(Op11::I128ToI64)
        } else if t == 3 {
            Some(Op11::I64Abs)
        } else if t == 4 {
            Some(Op11::I64BitNot)
        } else if t == 5 {
            Some(Op11::I64Clz)
        } else if t == 6 {
            Some(Op11::I64Ctz)
        } else if t == 7 {
            Some(Op11::I64IsNonZero)
        } else if t == 8 {
            Some(Op11::I64Neg)
        } else if t == 9 {
            Some(Op11::I64Popcount)
        } else if t == 10 {
            Some(Op11::I64RevBits)
        } else if t == 11 {
            Some(Op11::I64RevBytes)
        } else if t == 12 {
            Some(Op11::I64ToI6)
        } else {
            None
        }
    }

    /// The types of the operands, in order.
    pub open spec fn spec_inputs(self) -> Seq<Ty> {
        match self {
            Op11::BoolNot => seq![Ty::Bool],
            Op11::I128HiI64 | Op11::I128ToI64 => seq![Ty::I128],
            Op11::I64Abs | Op11::I64BitNot | Op11::I64Clz | Op11::I64Ctz | Op11::I64IsNonZero | Op11::I64Neg | Op11::I64Popcount | Op11::I64RevBits | Op11::I64RevBytes | Op11::I64ToI6 => seq![Ty::I64],
        }
    }

    /// The types of the results, in order.
    pub open spec fn spec_outputs(self) -> Seq<Ty> {
        match self {
            Op11::BoolNot | Op11::I64IsNonZero => seq![Ty::Bool],
            Op11::I128HiI64 | Op11::I128ToI64 | Op11::I64Abs | Op11::I64BitNot | Op11::I64Clz | Op11::I64Ctz | Op11::I64Neg | Op11::I64Popcount | Op11::I64RevBits | Op11::I64RevBytes => seq![Ty::I64],
            Op11::I64ToI6 => seq![Ty::I6],
        }
    }

    pub fn tag(self) -> (t: u8)
        ensures
            t == self.spec_tag(),
            Op11::spec_decode(t) == Some(self),
    {
        match self {
            Op11::BoolNot => 0,
            Op11::I128HiI64 => 1,
            Op11::I128ToI64 => 2,
            Op11::I64Abs => 3,
            Op11::I64BitNot => 4,
            Op11::I64Clz => 5,
            Op11::I64Ctz => 6,
            Op11::I64IsNonZero => 7,
            Op11::I64Neg => 8,
            Op11::I64Popcount => 9,
            Op11::I64RevBits => 10,
            Op11::I64RevBytes => 11,
            Op11::I64ToI6 => 12,
        }
    }

    /// Reads an operation from its byte: a range test, then a lookup.
    pub fn decode(t: u8) -> (r: Result<Op11, DecodeError>)
        ensures
            match Op11::spec_decode(t) {
                Some(op) => r == Ok::<Op11, DecodeError>(op),
                None => r == Err::<Op11, DecodeError>(DecodeError::InvalidTag),
            },
            r is Ok <==> (t as int) < Op11::VARIANT_COUNT,
    {
        if t as usize >= Op11::VARIANT_COUNT {
            return Err(DecodeError::InvalidTag);
        }
        match t {
            0 => Ok(Op11::BoolNot),
            1 => Ok(Op11::I128HiI64),
            2 => Ok(Op11::I128ToI64),
            3 => Ok(Op11::I64Abs),
            4 => Ok(Op11::I64BitNot),
            5 => Ok(Op11::I64Clz),
            6 => Ok(Op11::I64Ctz),
            7 => Ok(Op11::I64IsNonZero),
            8 => Ok(Op11::I64Neg),
            9 => Ok(Op11::I64Popcount),
            10 => Ok(Op11::I64RevBits),
            11 => Ok(Op11::I64RevBytes),
            _ => Ok(Op11::I64ToI6),
        }
    }

    /// The operand types of this operation.
    pub fn inputs(self) -> (r: [Ty; 1])
        ensures
            r@ == self.spec_inputs(),
    {
        let r = match self {
            Op11::BoolNot => [Ty::Bool],
            Op11::I128HiI64 | Op11::I128ToI64 => [Ty::I128],
            Op11::I64Abs | Op11::I64BitNot | Op11::I64Clz | Op11::I64Ctz | Op11::I64IsNonZero | Op11::I64Neg | Op11::I64Popcount | Op11::I64RevBits | Op11::I64RevBytes | Op11::I64ToI6 => [Ty::I64],
        };
        assert(r@ =~= self.spec_inputs());
        r
    }

    /// The result types of this operation.
    pub fn outputs(self) -> (r: Vec<Ty>)
        ensures
            r@ == self.spec_outputs(),
    {
        let mut r: Vec<Ty> = Vec::new();
        match self {
            Op11::BoolNot | Op11::I64IsNonZero => { r.push(Ty::Bool); },
            Op11::I128HiI64 | Op11::I128ToI64 | Op11::I64Abs | Op11::I64BitNot | Op11::I64Clz | Op11::I64Ctz | Op11::I64Neg | Op11::I64Popcount | Op11::I64RevBits | Op11::I64RevBytes => { r.push(Ty::I64); },
            Op11::I64ToI6 => { r.push(Ty::I6); },
        }
        assert(r@ =~= self.spec_outputs());
        r
    }

    /// The static signature of this operation: operand types, then result types.
    pub fn types(self) -> (r: ([Ty; 1], Vec<Ty>))
        ensures
            r.0@ == self.spec_inputs(),
            r.1@ == self.spec_outputs(),
    {
        (self.inputs(), self.outputs())
    }
}

/// The byte of an operation stands for that operation, and the signature of
/// every operation has 1 operand and one or two results.
pub proof fn lemma_op11_table(op: Op11)
    ensures
        Op11::spec_decode(op.spec_tag()) == Some(op),
        (op.spec_tag() as int) < Op11::VARIANT_COUNT,
        op.spec_inputs().len() == 1,
        1 <= op.spec_outputs().len() <= 2,
{
}

/// The operations of two operands.
#[derive(Clone, Copy, Debug, PartialEq, Eq, Structural)]
pub enum Op21 {
    /// Logical and.
    BoolAnd,
    /// Equality of truth values.
    BoolEq,
    /// Inequality of truth values.
    BoolNeq,
    /// Logical or.
    BoolOr,
    /// Wrapping sum.
    I64Add,
    /// Bitwise and.
    I64BitAnd,
    /// Bitwise or.
    I64BitOr,
    /// Bitwise exclusive or.
    I64BitXor,
    /// Equal.
    I64IsEq,
    /// Signed greater than or equal.
    I64IsGeS,
    /// Unsigned greater than or equal.
    I64IsGeU,
    /// Signed greater than.
    I64IsGtS,
    /// Unsigned greater than.
    I64IsGtU,
    /// Signed less than or equal.
    I64IsLeS,
    /// Unsigned less than or equal.
    I64IsLeU,
    /// Signed less than.
    I64IsLtS,
    /// Unsigned less than.
    I64IsLtU,
    /// Not equal.
    I64IsNeq,
    /// Signed maximum.
    I64MaxS,
    /// Unsigned maximum.
    I64MaxU,
    /// Signed minimum.
    I64MinS,
    /// Unsigned minimum.
    I64MinU,
    /// Wrapping product.
    I64Mul,
    /// Full signed product: low word, then high word.
    I64MulFullS,
    /// Full unsigned product: low word, then high word.
    I64MulFullU,
    /// High word of the signed product.
    I64MulHiS,
    /// High word of the unsigned product.
    I64MulHiU,
    /// Rotate left.
    I64Rol,
    /// Rotate right.
    I64Ror,
    /// Shift left.
    I64Shl,
    /// Arithmetic shift right.
    I64ShrS,
    /// Logical shift right.
    I64ShrU,
    /// Wrapping difference.
    I64Sub,
}

impl Op21 {
    /// The number of operations in this table.
    pub const VARIANT_COUNT: usize = 33;

    /// The byte that stands for this operation: its position in the table.
    pub open spec fn spec_tag(self) -> u8 {
        match self {
            Op21::BoolAnd => 0,
            Op21::BoolEq => 1,
            Op21::BoolNeq => 2,
            Op21::BoolOr => 3,
            Op21::I64Add => 4,
            Op21::I64BitAnd => 5,
            Op21::I64BitOr => 6,
            Op21::I64BitXor => 7,
            Op21::I64IsEq => 8,
            Op21::I64IsGeS => 9,
            Op21::I64IsGeU => 10,
            Op21::I64IsGtS => 11,
            Op21::I64IsGtU => 12,
            Op21::I64IsLeS => 13,
            Op21::I64IsLeU => 14,
            Op21::I64IsLtS => 15,
            Op21::I64IsLtU => 16,
            Op21::I64IsNeq => 17,
            Op21::I64MaxS => 18,
            Op21::I64MaxU => 19,
            Op21::I64MinS => 20,
            Op21::I64MinU => 21,
            Op21::I64Mul => 22,
            Op21::I64MulFullS => 23,
            Op21::I64MulFullU => 24,
            Op21::I64MulHiS => 25,
            Op21::I64MulHiU => 26,
            Op21::I64Rol => 27,
            Op21::I64Ror => 28,
            Op21::I64Shl => 29,
            Op21::I64ShrS => 30,
            Op21::I64ShrU => 31,
            Op21::I64Sub => 32,
        }
    }

    /// The operation that a byte stands for, if any.
    pub open spec fn spec_decode(t: u8) -> Option<Op21> {
        if t == 0 {
            Some(Op21::BoolAnd)
        } else if t == 1 {
            Some(Op21::BoolEq)
        } else if t == 2 {
            Some(Op21::BoolNeq)
        } else if t == 3 {
            Some(Op21::BoolOr)
        } else if t == 4 {
            Some(Op21::I64Add)
        } else if t == 5 {
            Some(Op21::I64BitAnd)
        } else if t == 6 {
            Some(Op21::I64BitOr)
        } else if t == 7 {
            Some(Op21::I64BitXor)
        } else if t == 8 {
            Some(Op21::I64IsEq)
        } else if t == 9 {
            Some(Op21::I64IsGeS)
        } else if t == 10 {
            Some(Op21::I64IsGeU)
        } else if t == 11 {
            Some(Op21::I64IsGtS)
        } else if t == 12 {
            Some(Op21::I64IsGtU)
        } else if t == 13 {
            Some(Op21::I64IsLeS)
        } else if t == 14 {
            Some(Op21::I64IsLeU)
        } else if t == 15 {
            Some(Op21::I64IsLtS)
        } else if t == 16 {
            Some(Op21::I64IsLtU)
        } else if t == 17 {
            Some(Op21::I64IsNeq)
        } else if t == 18 {
            Some(Op21::I64MaxS)
        } else if t == 19 {
            Some(Op21::I64MaxU)
        } else if t == 20 {
            Some(Op21::I64MinS)
        } else if t == 21 {
            Some(Op21::I64MinU)
        } else if t == 22 {
            Some(Op21::I64Mul)
        } else if t == 23 {
            Some(Op21::I64MulFullS)
        } else if t == 24 {
            Some(Op21::I64MulFullU)
        } else if t == 25 {
            Some(Op21::I64MulHiS)
        } else if t == 26 {
            Some(Op21::I64MulHiU)
        } else if t == 27 {
            Some(Op21::I64Rol)
        } else if t == 28 {
            Some(Op21::I64Ror)
        } else if t == 29 {
            Some(Op21::I64Shl)
        } else if t == 30 {
            Some(Op21::I64ShrS)
        } else if t == 31 {
            Some(Op21::I64ShrU)
        } else if t == 32 {
            Some(Op21::I64Sub)
        } else {
            None
        }
    }

    /// The types of the operands, in order.
    pub open spec fn spec_inputs(self) -> Seq<Ty> {
        match self {
            Op21::BoolAnd | Op21::BoolEq | Op21::BoolNeq | Op21::BoolOr => seq![Ty::Bool, Ty::Bool],
            Op21::I64Add | Op21::I64BitAnd | Op21::I64BitOr | Op21::I64BitXor | Op21::I64IsEq | Op21::I64IsGeS | Op21::I64IsGeU | Op21::I64IsGtS | Op21::I64IsGtU | Op21::I64IsLeS | Op21::I64IsLeU | Op21::I64IsLtS | Op21::I64IsLtU | Op21::I64IsNeq | Op21::I64MaxS | Op21::I64MaxU | Op21::I64MinS | Op21::I64MinU | Op21::I64Mul | Op21::I64MulFullS | Op21::I64MulFullU | Op21::I64MulHiS | Op21::I64MulHiU | Op21::I64Sub => seq![Ty::I64, Ty::I64],
            Op21::I64Rol | Op21::I64Ror | Op21::I64Shl | Op21::I64ShrS | Op21::I64ShrU => seq![Ty::I64, Ty::I6],
        }
    }

    /// The types of the results, in order.
    pub open spec fn spec_outputs(self) -> Seq<Ty> {
        match self {
            Op21::BoolAnd | Op21::BoolEq | Op21::BoolNeq | Op21::BoolOr | Op21::I64IsEq | Op21::I64IsGeS | Op21::I64IsGeU | Op21::I64IsGtS | Op21::I64IsGtU | Op21::I64IsLeS | Op21::I64IsLeU | Op21::I64IsLtS | Op21::I64IsLtU | Op21::I64IsNeq => seq![Ty::Bool],
            Op21::I64Add | Op21::I64BitAnd | Op21::I64BitOr | Op21::I64BitXor | Op21::I64MaxS | Op21::I64MaxU | Op21::I64MinS | Op21::I64MinU | Op21::I64Mul | Op21::I64MulHiS | Op21::I64MulHiU | Op21::I64Rol | Op21::I64Ror | Op21::I64Shl | Op21::I64ShrS | Op21::I64ShrU | Op21::I64Sub => seq![Ty::I64],
            Op21::I64MulFullS | Op21::I64MulFullU => seq![Ty::I64, Ty::I64],
        }
    }

    pub fn tag(self) -> (t: u8)
        ensures
            t == self.spec_tag(),
            Op21::spec_decode(t) == Some(self),
    {
        match self {
            Op21::BoolAnd => 0,
            Op21::BoolEq => 1,
            Op21::BoolNeq => 2,
            Op21::BoolOr => 3,
            Op21::I64Add => 4,
            Op21::I64BitAnd => 5,
            Op21::I64BitOr => 6,
            Op21::I64BitXor => 7,
            Op21::I64IsEq => 8,
            Op21::I64IsGeS => 9,
            Op21::I64IsGeU => 10,
            Op21::I64IsGtS => 11,
            Op21::I64IsGtU => 12,
            Op21::I64IsLeS => 13,
            Op21::I64IsLeU => 14,
            Op21::I64IsLtS => 15,
            Op21::I64IsLtU => 16,
            Op21::I64IsNeq => 17,
            Op21::I64MaxS => 18,
            Op21::I64MaxU => 19,
            Op21::I64MinS => 20,
            Op21::I64MinU => 21,
            Op21::I64Mul => 22,
            Op21::I64MulFullS => 23,
            Op21::I64MulFullU => 24,
            Op21::I64MulHiS => 25,
            Op21::I64MulHiU => 26,
            Op21::I64Rol => 27,
            Op21::I64Ror => 28,
            Op21::I64Shl => 29,
            Op21::I64ShrS => 30,
            Op21::I64ShrU => 31,
            Op21::I64Sub => 32,
        }
    }

    /// Reads an operation from its byte: a range test, then a lookup.
    pub fn decode(t: u8) -> (r: Result<Op21, DecodeError>)
        ensures
            match Op21::spec_decode(t) {
                Some(op) => r == Ok::<Op21, DecodeError>(op),
                None => r == Err::<Op21, DecodeError>(DecodeError::InvalidTag),
            },
            r is Ok <==> (t as int) < Op21::VARIANT_COUNT,
    {
        if t as usize >= Op21::VARIANT_COUNT {
            return Err(DecodeError::InvalidTag);
        }
        match t {
            0 => Ok(Op21::BoolAnd),
            1 => Ok(Op21::BoolEq),
            2 => Ok(Op21::BoolNeq),
            3 => Ok(Op21::BoolOr),
            4 => Ok(Op21::I64Add),
            5 => Ok(Op21::I64BitAnd),
            6 => Ok(Op21::I64BitOr),
            7 => Ok(Op21::I64BitXor),
            8 => Ok(Op21::I64IsEq),
            9 => Ok(Op21::I64IsGeS),
            10 => Ok(Op21::I64IsGeU),
            11 => Ok(Op21::I64IsGtS),
            12 => Ok(Op21::I64IsGtU),
            13 => Ok(Op21::I64IsLeS),
            14 => Ok(Op21::I64IsLeU),
            15 => Ok(Op21::I64IsLtS),
            16 => Ok(Op21::I64IsLtU),
            17 => Ok(Op21::I64IsNeq),
            18 => Ok(Op21::I64MaxS),
            19 => Ok(Op21::I64MaxU),
            20 => Ok(Op21::I64MinS),
            21 => Ok(Op21::I64MinU),
            22 => Ok(Op21::I64Mul),
            23 => Ok(Op21::I64MulFullS),
            24 => Ok(Op21::I64MulFullU),
            25 => Ok(Op21::I64MulHiS),
            26 => Ok(Op21::I64MulHiU),
            27 => Ok(Op21::I64Rol),
            28 => Ok(Op21::I64Ror),
            29 => Ok(Op21::I64Shl),
            30 => Ok(Op21::I64ShrS),
            31 => Ok(Op21::I64ShrU),
            _ => Ok(Op21::I64Sub),
        }
    }

    /// The operand types of this operation.
    pub fn inputs(self) -> (r: [Ty; 2])
        ensures
            r@ == self.spec_inputs(),
    {
        let r = match self {
            Op21::BoolAnd | Op21::BoolEq | Op21::BoolNeq | Op21::BoolOr => [Ty::Bool, Ty::Bool],
            Op21::I64Add | Op21::I64BitAnd | Op21::I64BitOr | Op21::I64BitXor | Op21::I64IsEq | Op21::I64IsGeS | Op21::I64IsGeU | Op21::I64IsGtS | Op21::I64IsGtU | Op21::I64IsLeS | Op21::I64IsLeU | Op21::I64IsLtS | Op21::I64IsLtU | Op21::I64IsNeq | Op21::I64MaxS | Op21::I64MaxU | Op21::I64MinS | Op21::I64MinU | Op21::I64Mul | Op21::I64MulFullS | Op21::I64MulFullU | Op21::I64MulHiS | Op21::I64MulHiU | Op21::I64Sub => [Ty::I64, Ty::I64],
            Op21::I64Rol | Op21::I64Ror | Op21::I64Shl | Op21::I64ShrS | Op21::I64ShrU => [Ty::I64, Ty::I6],
        };
        assert(r@ =~= self.spec_inputs());
        r
    }

    /// The result types of this operation.
    pub fn outputs(self) -> (r: Vec<Ty>)
        ensures
            r@ == self.spec_outputs(),
    {
        let mut r: Vec<Ty> = Vec::new();
        match self {
            Op21::BoolAnd | Op21::BoolEq | Op21::BoolNeq | Op21::BoolOr | Op21::I64IsEq | Op21::I64IsGeS | Op21::I64IsGeU | Op21::I64IsGtS | Op21::I64IsGtU | Op21::I64IsLeS | Op21::I64IsLeU | Op21::I64IsLtS | Op21::I64IsLtU | Op21::I64IsNeq => { r.push(Ty::Bool); },
            Op21::I64Add | Op21::I64BitAnd | Op21::I64BitOr | Op21::I64BitXor | Op21::I64MaxS | Op21::I64MaxU | Op21::I64MinS | Op21::I64MinU | Op21::I64Mul | Op21::I64MulHiS | Op21::I64MulHiU | Op21::I64Rol | Op21::I64Ror | Op21::I64Shl | Op21::I64ShrS | Op21::I64ShrU | Op21::I64Sub => { r.push(Ty::I64); },
            Op21::I64MulFullS | Op21::I64MulFullU => { r.push(Ty::I64); r.push(Ty::I64); },
        }
        assert(r@ =~= self.spec_outputs());
        r
    }

    /// The static signature of this operation: operand types, then result types.
    pub fn types(self) -> (r: ([Ty; 2], Vec<Ty>))
        ensures
            r.0@ == self.spec_inputs(),
            r.1@ == self.spec_outputs(),
    {
        (self.inputs(), self.outputs())
    }
}

/// The byte of an operation stands for that operation, and the signature of
/// every operation has 2 operands and one or two results.
pub proof fn lemma_op21_table(op: Op21)
    ensures
        Op21::spec_decode(op.spec_tag()) == Some(op),
        (op.spec_tag() as int) < Op21::VARIANT_COUNT,
        op.spec_inputs().len() == 2,
        1 <= op.spec_outputs().len() <= 2,
{
}

/// The operations of three operands.
#[derive(Clone, Copy, Debug, PartialEq, Eq, Structural)]
pub enum Op31 {
    /// The second operand where the first is true, else the third.
    I64Sel,
}

impl Op31 {
    /// The number of operations in this table.
    pub const VARIANT_COUNT: usize = 1;

    /// The byte that stands for this operation: its position in the table.
    pub open spec fn spec_tag(self) -> u8 {
        match self {
            Op31::I64Sel => 0,
        }
    }

    /// The operation that a byte stands for, if any.
    pub open spec fn spec_decode(t: u8) -> Option<Op31> {
        if t == 0 {
            Some(Op31::I64Sel)
        } else {
            None
        }
    }

    /// The types of the operands, in order.
    pub open spec fn spec_inputs(self) -> Seq<Ty> {
        match self {
            Op31::I64Sel => seq![Ty::Bool, Ty::I64, Ty::I64],
        }
    }

    /// The types of the results, in order.
    pub open spec fn spec_outputs(self) -> Seq<Ty> {
        match self {
            Op31::I64Sel => seq![Ty::I64],
        }
    }

    pub fn tag(self) -> (t: u8)
        ensures
            t == self.spec_tag(),
            Op31::spec_decode(t) == Some(self),
    {
        match self {
            Op31::I64Sel => 0,
        }
    }

    /// Reads an operation from its byte: a range test, then a lookup.
    pub fn decode(t: u8) -> (r: Result<Op31, DecodeError>)
        ensures
            match Op31::spec_decode(t) {
                Some(op) => r == Ok::<Op31, DecodeError>(op),
                None => r == Err::<Op31, DecodeError>(DecodeError::InvalidTag),
            },
            r is Ok <==> (t as int) < Op31::VARIANT_COUNT,
    {
        if t as usize >= Op31::VARIANT_COUNT {
            return Err(DecodeError::InvalidTag);
        }
        match t {
            _ => Ok(Op31::I64Sel),
        }
    }

    /// The operand types of this operation.
    pub fn inputs(self) -> (r: [Ty; 3])
        ensures
            r@ == self.spec_inputs(),
    {
        let r = match self {
            Op31::I64Sel => [Ty::Bool, Ty::I64, Ty::I64],
        };
        assert(r@ =~= self.spec_inputs());
        r
    }

    /// The result types of this operation.
    pub fn outputs(self) -> (r: Vec<Ty>)
        ensures
            r@ == self.spec_outputs(),
    {
        let mut r: Vec<Ty> = Vec::new();
        match self {
            Op31::I64Sel => { r.push(Ty::I64); },
        }
        assert(r@ =~= self.spec_outputs());
        r
    }

    /// The static signature of this operation: operand types, then result types.
    pub fn types(self) -> (r: ([Ty; 3], Vec<Ty>))
        ensures
            r.0@ == self.spec_inputs(),
            r.1@ == self.spec_outputs(),
    {
        (self.inputs(), self.outputs())
    }
}

/// The byte of an operation stands for that operation, and the signature of
/// every operation has 3 operands and one or two results.
pub proof fn lemma_op31_table(op: Op31)
    ensures
        Op31::spec_decode(op.spec_tag()) == Some(op),
        (op.spec_tag() as int) < Op31::VARIANT_COUNT,
        op.spec_inputs().len() == 3,
        1 <= op.spec_outputs().len() <= 2,
{
}

impl Op11 {
    /// The name of the operation, as it is written.
    pub open spec fn spec_name(self) -> Seq<char> {
        match self {
            Op11::BoolNot => "BoolNot"@,
            Op11::I128HiI64 => "I128HiI64"@,
            Op11::I128ToI64 => "I128ToI64"@,
            Op11::I64Abs => "I64Abs"@,
            Op11::I64BitNot => "I64BitNot"@,
            Op11::I64Clz => "I64Clz"@,
            Op11::I64Ctz => "I64Ctz"@,
            Op11::I64IsNonZero => "I64IsNonZero"@,
            Op11::I64Neg => "I64Neg"@,
            Op11::I64Popcount => "I64Popcount"@,
            Op11::I64RevBits => "I64RevBits"@,
            Op11::I64RevBytes => "I64RevBytes"@,
            Op11::I64ToI6 => "I64ToI6"@,
        }
    }

    /// The name of the operation, as it is written.
    pub fn name(self) -> (r: &'static str)
        ensures
            r@ == self.spec_name(),
    {
        match self {
            Op11::BoolNot => "BoolNot",
            Op11::I128HiI64 => "I128HiI64",
            Op11::I128ToI64 => "I128ToI64",
            Op11::I64Abs => "I64Abs",
            Op11::I64BitNot => "I64BitNot",
            Op11::I64Clz => "I64Clz",
            Op11::I64Ctz => "I64Ctz",
            Op11::I64IsNonZero => "I64IsNonZero",
            Op11::I64Neg => "I64Neg",
            Op11::I64Popcount => "I64Popcount",
            Op11::I64RevBits => "I64RevBits",
            Op11::I64RevBytes => "I64RevBytes",
            Op11::I64ToI6 => "I64ToI6",
        }
    }
}

impl Op21 {
    /// The name of the operation, as it is written.
    pub open spec fn spec_name(self) -> Seq<char> {
        match self {
            Op21::BoolAnd => "BoolAnd"@,
            Op21::BoolEq => "BoolEq"@,
            Op21::BoolNeq => "BoolNeq"@,
            Op21::BoolOr => "BoolOr"@,
            Op21::I64Add => "I64Add"@,
            Op21::I64BitAnd => "I64BitAnd"@,
            Op21::I64BitOr => "I64BitOr"@,
            Op21::I64BitXor => "I64BitXor"@,
            Op21::I64IsEq => "I64IsEq"@,
            Op21::I64IsGeS => "I64IsGeS"@,
            Op21::I64IsGeU => "I64IsGeU"@,
            Op21::I64IsGtS => "I64IsGtS"@,
            Op21::I64IsGtU => "I64IsGtU"@,
            Op21::I64IsLeS => "I64IsLeS"@,
            Op21::I64IsLeU => "I64IsLeU"@,
            Op21::I64IsLtS => "I64IsLtS"@,
            Op21::I64IsLtU => "I64IsLtU"@,
            Op21::I64IsNeq => "I64IsNeq"@,
            Op21::I64MaxS => "I64MaxS"@,
            Op21::I64MaxU => "I64MaxU"@,
            Op21::I64MinS => "I64MinS"@,
            Op21::I64MinU => "I64MinU"@,
            Op21::I64Mul => "I64Mul"@,
            Op21::I64MulFullS => "I64MulFullS"@,
            Op21::I64MulFullU => "I64MulFullU"@,
            Op21::I64MulHiS => "I64MulHiS"@,
            Op21::I64MulHiU => "I64MulHiU"@,
            Op21::I64Rol => "I64Rol"@,
            Op21::I64Ror => "I64Ror"@,
            Op21::I64Shl => "I64Shl"@,
            Op21::I64ShrS => "I64ShrS"@,
            Op21::I64ShrU => "I64ShrU"@,
            Op21::I64Sub => "I64Sub"@,
        }
    }

    /// The name of the operation, as it is written.
    pub fn name(self) -> (r: &'static str)
        ensures
            r@ == self.spec_name(),
    {
        match self {
            Op21::BoolAnd => "BoolAnd",
            Op21::BoolEq => "BoolEq",
            Op21::BoolNeq => "BoolNeq",
            Op21::BoolOr => "BoolOr",
            Op21::I64Add => "I64Add",
            Op21::I64BitAnd => "I64BitAnd",
            Op21::I64BitOr => "I64BitOr",
            Op21::I64BitXor => "I64BitXor",
            Op21::I64IsEq => "I64IsEq",
            Op21::I64IsGeS => "I64IsGeS",
            Op21::I64IsGeU => "I64IsGeU",
            Op21::I64IsGtS => "I64IsGtS",
            Op21::I64IsGtU => "I64IsGtU",
            Op21::I64IsLeS => "I64IsLeS",
            Op21::I64IsLeU => "I64IsLeU",
            Op21::I64IsLtS => "I64IsLtS",
            Op21::I64IsLtU => "I64IsLtU",
            Op21::I64IsNeq => "I64IsNeq",
            Op21::I64MaxS => "I64MaxS",
            Op21::I64MaxU => "I64MaxU",
            Op21::I64MinS => "I64MinS",
            Op21::I64MinU => "I64MinU",
            Op21::I64Mul => "I64Mul",
            Op21::I64MulFullS => "I64MulFullS",
            Op21::I64MulFullU => "I64MulFullU",
            Op21::I64MulHiS => "I64MulHiS",
            Op21::I64MulHiU => "I64MulHiU",
            Op21::I64Rol => "I64Rol",
            Op21::I64Ror => "I64Ror",
            Op21::I64Shl => "I64Shl",
            Op21::I64ShrS => "I64ShrS",
            Op21::I64ShrU => "I64ShrU",
            Op21::I64Sub => "I64Sub",
        }
    }
}

impl Op31 {
    /// The name of the operation, as it is written.
    pub open spec fn spec_name(self) -> Seq<char> {
        match self {
            Op31::I64Sel => "I64Sel"@,
        }
    }

    /// The name of the operation, as it is written.
    pub fn name(self) -> (r: &'static str)
        ensures
            r@ == self.spec_name(),
    {
        match self {
            Op31::I64Sel => "I64Sel",
        }
    }
}

} // verus!
