//! The wire format, stated as mathematical functions between byte sequences
//! and the values they stand for.
//!
//! All integers of more than one byte are little-endian. An instruction is a
//! tag byte followed by a payload whose shape the tag decides. Argument and
//! type lists inside an instruction carry a 16-bit count; functions in a
//! program carry a 32-bit byte length; the fields of a function and of a
//! signature are found through 32-bit end offsets.

use vstd::prelude::*;
use vstd::utf8::{decode_utf8, encode_utf8, valid_utf8};
use crate::bc::{first_variable_sized, spec_field};
use crate::bytecode::{BlockId, Cond, FunctionView, InstView, VarId};
use crate::error::DecodeError;
use crate::ir_op::{Op11, Op21, Op31};
use crate::ir_ty::Ty;
use crate::slice_ext::{le_u16, le_u64, u16_le, u32_le, u64_le};

verus! {

pub const TAG_BLOCK: u8 = 0;

pub const TAG_GOTO: u8 = 1;

pub const TAG_IF: u8 = 2;

pub const TAG_IMM_BOOL: u8 = 3;

pub const TAG_IMM_I6: u8 = 4;

pub const TAG_IMM_I64: u8 = 5;

pub const TAG_OP11: u8 = 6;

pub const TAG_OP21: u8 = 7;

pub const TAG_OP31: u8 = 8;

pub const TAG_RETURN: u8 = 9;

/// A branch condition that is a truth value.
pub const COND_VAR: u8 = 0;

/// A branch condition that is a fused test of one operand.
pub const COND_OP11: u8 = 1;

/// A branch condition that is a fused comparison of two operands.
pub const COND_OP21: u8 = 2;

/// The largest number of items in a list inside an instruction.
pub const MAX_LIST: usize = 0xffff;

/// The bytes of a list of value indices: two bytes each.
pub open spec fn encode_ids(s: Seq<VarId>) -> Seq<u8> {
    Seq::new(2 * s.len(), |i: int| u16_le(s[i / 2].0)[i % 2])
}

/// The value indices that a byte sequence of even length holds.
pub open spec fn decode_ids(b: Seq<u8>) -> Seq<VarId> {
    Seq::new(b.len() / 2, |i: int| VarId(le_u16(b.subrange(2 * i, 2 * i + 2))))
}

/// The bytes of one arm of a jump: argument count, target, arguments.
pub open spec fn encode_arm(target: BlockId, args: Seq<VarId>) -> Seq<u8> {
    u16_le(args.len() as u16) + u16_le(target.0) + encode_ids(args)
}

/// The bytes of a branch condition: its kind, then its operation and
/// operands.
pub open spec fn encode_cond(c: Cond) -> Seq<u8> {
    match c {
        Cond::Var(x) => seq![COND_VAR] + u16_le(x.0),
        Cond::Op11(op, x) => seq![COND_OP11, op.spec_tag()] + u16_le(x.0),
        Cond::Op21(op, x, y) => seq![COND_OP21, op.spec_tag()] + u16_le(x.0) + u16_le(y.0),
    }
}

/// The bytes of an instruction.
pub open spec fn encode_inst(i: InstView) -> Seq<u8> {
    match i {
        InstView::Block(tys) => seq![TAG_BLOCK] + u16_le(tys.len() as u16) + Ty::encode_all(tys),
        InstView::Goto(t, args) => seq![TAG_GOTO] + encode_arm(t, args),
        InstView::If(c, t, targs, e, eargs) => seq![TAG_IF] + encode_cond(c) + encode_arm(t, targs)
            + encode_arm(e, eargs),
        InstView::ImmBool(b) => seq![
            TAG_IMM_BOOL,
            if b {
                1u8
            } else {
                0u8
            },
        ],
        InstView::ImmI6(x) => seq![TAG_IMM_I6, x],
        InstView::ImmI64(x) => seq![TAG_IMM_I64] + u64_le(x),
        InstView::Op11(op, x) => seq![TAG_OP11, op.spec_tag()] + u16_le(x.0),
        InstView::Op21(op, x, y) => seq![TAG_OP21, op.spec_tag()] + u16_le(x.0) + u16_le(y.0),
        InstView::Op31(op, x, y, z) => seq![TAG_OP31, op.spec_tag()] + u16_le(x.0) + u16_le(y.0)
            + u16_le(z.0),
        InstView::Ret(args) => seq![TAG_RETURN] + u16_le(args.len() as u16) + encode_ids(args),
    }
}

/// Whether an instruction can be written: its lists are short enough for
/// their counts, and a six-bit immediate is below 64.
pub open spec fn inst_encodable(i: InstView) -> bool {
    match i {
        InstView::Block(tys) => tys.len() <= MAX_LIST,
        InstView::Goto(_, args) => args.len() <= MAX_LIST,
        InstView::If(_, _, targs, _, eargs) => targs.len() <= MAX_LIST && eargs.len() <= MAX_LIST,
        InstView::ImmI6(x) => x < 64,
        InstView::Ret(args) => args.len() <= MAX_LIST,
        _ => true,
    }
}

/// The bytes of an instruction stream: those of its instructions, in order.
pub open spec fn encode_code(code: Seq<InstView>) -> Seq<u8>
    decreases code.len(),
{
    if code.len() == 0 {
        Seq::empty()
    } else {
        encode_code(code.drop_last()) + encode_inst(code.last())
    }
}

/// The bytes of a signature: the end offset of the inputs, the inputs, the
/// outputs.
pub open spec fn encode_signature(inputs: Seq<Ty>, outputs: Seq<Ty>) -> Seq<u8> {
    u32_le(inputs.len() as u32) + Ty::encode_all(inputs) + Ty::encode_all(outputs)
}

/// The bytes of a function: the end offsets of the name and of the
/// signature, then the name, the signature and the instruction stream.
pub open spec fn encode_function(f: FunctionView) -> Seq<u8> {
    let name = encode_utf8(f.name);
    let sig = encode_signature(f.inputs, f.outputs);
    u32_le(name.len() as u32) + u32_le((name.len() + sig.len()) as u32) + name + sig + encode_code(
        f.code,
    )
}

/// Whether a function can be written: each instruction can, and the name and
/// the signature are short enough for their offsets.
pub open spec fn function_encodable(f: FunctionView) -> bool {
    &&& forall|i: int| 0 <= i < f.code.len() ==> inst_encodable(#[trigger] f.code[i])
    &&& encode_utf8(f.name).len() + 4 + f.inputs.len() + f.outputs.len() <= u32::MAX
}

/// The bytes of a program: each function behind its byte length.
pub open spec fn encode_program(p: Seq<FunctionView>) -> Seq<u8>
    decreases p.len(),
{
    if p.len() == 0 {
        Seq::empty()
    } else {
        encode_program(p.drop_last()) + u32_le(encode_function(p.last()).len() as u32)
            + encode_function(p.last())
    }
}

/// Whether a program can be written: each function can, and is short enough
/// for its length.
pub open spec fn program_encodable(p: Seq<FunctionView>) -> bool {
    forall|i: int|
        0 <= i < p.len() ==> function_encodable(#[trigger] p[i]) && encode_function(p[i]).len()
            <= u32::MAX
}

/// One arm of a jump at the front of `p`, and the number of bytes it takes.
pub open spec fn decode_arm(p: Seq<u8>) -> Result<(BlockId, Seq<VarId>, int), DecodeError> {
    if p.len() < 2 {
        Err(DecodeError::Truncated)
    } else {
        let n = le_u16(p.subrange(0, 2)) as int;
        if p.len() - 2 < 2 + 2 * n {
            Err(DecodeError::Truncated)
        } else {
            Ok(
                (
                    BlockId(le_u16(p.subrange(2, 4))),
                    decode_ids(p.subrange(4, 4 + 2 * n)),
                    4 + 2 * n,
                ),
            )
        }
    }
}

/// A branch condition at the front of `p`, and the number of bytes it takes.
pub open spec fn decode_cond(p: Seq<u8>) -> Result<(Cond, int), DecodeError> {
    if p.len() < 1 {
        Err(DecodeError::Truncated)
    } else if p[0] == COND_VAR {
        if p.len() < 3 {
            Err(DecodeError::Truncated)
        } else {
            Ok((Cond::Var(VarId(le_u16(p.subrange(1, 3)))), 3))
        }
    } else if p[0] == COND_OP11 {
        if p.len() < 4 {
            Err(DecodeError::Truncated)
        } else {
            match Op11::spec_decode(p[1]) {
                None => Err(DecodeError::InvalidTag),
                Some(op) => Ok((Cond::Op11(op, VarId(le_u16(p.subrange(2, 4)))), 4)),
            }
        }
    } else if p[0] == COND_OP21 {
        if p.len() < 6 {
            Err(DecodeError::Truncated)
        } else {
            match Op21::spec_decode(p[1]) {
                None => Err(DecodeError::InvalidTag),
                Some(op) => Ok(
                    (
                        Cond::Op21(
                            op,
                            VarId(le_u16(p.subrange(2, 4))),
                            VarId(le_u16(p.subrange(4, 6))),
                        ),
                        6,
                    ),
                ),
            }
        }
    } else {
        Err(DecodeError::InvalidTag)
    }
}

/// The payload of a `Block` instruction at the front of `p`.
pub open spec fn decode_block(p: Seq<u8>) -> Result<(InstView, int), DecodeError> {
    if p.len() < 2 {
        Err(DecodeError::Truncated)
    } else {
        let n = le_u16(p.subrange(0, 2)) as int;
        if p.len() - 2 < n {
            Err(DecodeError::Truncated)
        } else if !Ty::all_valid(p.subrange(2, 2 + n)) {
            Err(DecodeError::InvalidTag)
        } else {
            Ok((InstView::Block(Ty::decode_all(p.subrange(2, 2 + n))), 2 + n))
        }
    }
}

/// The payload of a `Goto` instruction at the front of `p`.
pub open spec fn decode_goto(p: Seq<u8>) -> Result<(InstView, int), DecodeError> {
    match decode_arm(p) {
        Err(e) => Err(e),
        Ok((t, args, n)) => Ok((InstView::Goto(t, args), n)),
    }
}

/// The payload of an `If` instruction at the front of `p`.
pub open spec fn decode_if(p: Seq<u8>) -> Result<(InstView, int), DecodeError> {
    match decode_cond(p) {
        Err(e) => Err(e),
        Ok((c, n0)) => match decode_arm(p.subrange(n0, p.len() as int)) {
            Err(e) => Err(e),
            Ok((t, targs, n1)) => match decode_arm(p.subrange(n0 + n1, p.len() as int)) {
                Err(e) => Err(e),
                Ok((e, eargs, n2)) => Ok((InstView::If(c, t, targs, e, eargs), n0 + n1 + n2)),
            },
        },
    }
}

/// The payload of an `Op11` instruction at the front of `p`.
pub open spec fn decode_op11(p: Seq<u8>) -> Result<(InstView, int), DecodeError> {
    if p.len() < 3 {
        Err(DecodeError::Truncated)
    } else {
        match Op11::spec_decode(p[0]) {
            None => Err(DecodeError::InvalidTag),
            Some(op) => Ok((InstView::Op11(op, VarId(le_u16(p.subrange(1, 3)))), 3)),
        }
    }
}

/// The payload of an `Op21` instruction at the front of `p`.
pub open spec fn decode_op21(p: Seq<u8>) -> Result<(InstView, int), DecodeError> {
    if p.len() < 5 {
        Err(DecodeError::Truncated)
    } else {
        match Op21::spec_decode(p[0]) {
            None => Err(DecodeError::InvalidTag),
            Some(op) => Ok(
                (
                    InstView::Op21(
                        op,
                        VarId(le_u16(p.subrange(1, 3))),
                        VarId(le_u16(p.subrange(3, 5))),
                    ),
                    5,
                ),
            ),
        }
    }
}

/// The payload of an `Op31` instruction at the front of `p`.
pub open spec fn decode_op31(p: Seq<u8>) -> Result<(InstView, int), DecodeError> {
    if p.len() < 7 {
        Err(DecodeError::Truncated)
    } else {
        match Op31::spec_decode(p[0]) {
            None => Err(DecodeError::InvalidTag),
            Some(op) => Ok(
                (
                    InstView::Op31(
                        op,
                        VarId(le_u16(p.subrange(1, 3))),
                        VarId(le_u16(p.subrange(3, 5))),
                        VarId(le_u16(p.subrange(5, 7))),
                    ),
                    7,
                ),
            ),
        }
    }
}

/// The payload of a `Return` instruction at the front of `p`.
pub open spec fn decode_return(p: Seq<u8>) -> Result<(InstView, int), DecodeError> {
    if p.len() < 2 {
        Err(DecodeError::Truncated)
    } else {
        let n = le_u16(p.subrange(0, 2)) as int;
        if p.len() - 2 < 2 * n {
            Err(DecodeError::Truncated)
        } else {
            Ok((InstView::Ret(decode_ids(p.subrange(2, 2 + 2 * n))), 2 + 2 * n))
        }
    }
}

/// The payload of the instruction with tag `tag` at the front of `p`, and
/// the number of payload bytes it takes.
pub open spec fn decode_payload(tag: u8, p: Seq<u8>) -> Result<(InstView, int), DecodeError> {
    if tag == TAG_BLOCK {
        decode_block(p)
    } else if tag == TAG_GOTO {
        decode_goto(p)
    } else if tag == TAG_IF {
        decode_if(p)
    } else if tag == TAG_IMM_BOOL {
        if p.len() < 1 {
            Err(DecodeError::Truncated)
        } else {
            Ok((InstView::ImmBool(p[0] != 0), 1))
        }
    } else if tag == TAG_IMM_I6 {
        if p.len() < 1 {
            Err(DecodeError::Truncated)
        } else {
            Ok((InstView::ImmI6(p[0] % 64), 1))
        }
    } else if tag == TAG_IMM_I64 {
        if p.len() < 8 {
            Err(DecodeError::Truncated)
        } else {
            Ok((InstView::ImmI64(le_u64(p.subrange(0, 8))), 8))
        }
    } else if tag == TAG_OP11 {
        decode_op11(p)
    } else if tag == TAG_OP21 {
        decode_op21(p)
    } else if tag == TAG_OP31 {
        decode_op31(p)
    } else if tag == TAG_RETURN {
        decode_return(p)
    } else {
        Err(DecodeError::InvalidTag)
    }
}

/// The instruction at the front of `b`, and the number of bytes it takes.
///
/// Fields are read in order. A field that runs past the end makes the stream
/// truncated; a tag out of range makes it invalid.
pub open spec fn decode_inst(b: Seq<u8>) -> Result<(InstView, int), DecodeError> {
    if b.len() < 1 {
        Err(DecodeError::Truncated)
    } else {
        match decode_payload(b[0], b.subrange(1, b.len() as int)) {
            Err(e) => Err(e),
            Ok((i, n)) => Ok((i, 1 + n)),
        }
    }
}

/// The instructions of a stream, in order, or the first defect in it.
pub open spec fn decode_code(b: Seq<u8>) -> Result<Seq<InstView>, DecodeError>
    decreases b.len(),
{
    if b.len() == 0 {
        Ok(Seq::empty())
    } else {
        match decode_inst(b) {
            Err(e) => Err(e),
            Ok((i, n)) => if 0 < n <= b.len() {
                match decode_code(b.subrange(n, b.len() as int)) {
                    Err(e) => Err(e),
                    Ok(rest) => Ok(seq![i] + rest),
                }
            } else {
                Err(DecodeError::Truncated)
            },
        }
    }
}

/// A list of types held as one byte each.
pub open spec fn decode_types(b: Seq<u8>) -> Result<Seq<Ty>, DecodeError> {
    if Ty::all_valid(b) {
        Ok(Ty::decode_all(b))
    } else {
        Err(DecodeError::InvalidTag)
    }
}

/// The input and output types of a signature record.
pub open spec fn decode_signature(b: Seq<u8>) -> Result<(Seq<Ty>, Seq<Ty>), DecodeError> {
    match spec_field(b, 2, 0) {
        Err(e) => Err(e),
        Ok(i) => match decode_types(i) {
            Err(e) => Err(e),
            Ok(inputs) => match spec_field(b, 2, 1) {
                Err(e) => Err(e),
                Ok(o) => match decode_types(o) {
                    Err(e) => Err(e),
                    Ok(outputs) => Ok((inputs, outputs)),
                },
            },
        },
    }
}

/// The name of a function record.
pub open spec fn decode_name(b: Seq<u8>) -> Result<Seq<char>, DecodeError> {
    match spec_field(b, 3, 0) {
        Err(e) => Err(e),
        Ok(n) => if valid_utf8(n) {
            Ok(decode_utf8(n))
        } else {
            Err(DecodeError::InvalidName)
        },
    }
}

/// The function that a record holds, or the first defect in it: the name is
/// read first, then the signature, then the instruction stream.
pub open spec fn decode_function(b: Seq<u8>) -> Result<FunctionView, DecodeError> {
    match decode_name(b) {
        Err(e) => Err(e),
        Ok(name) => match spec_field(b, 3, 1) {
            Err(e) => Err(e),
            Ok(s) => match decode_signature(s) {
                Err(e) => Err(e),
                Ok((inputs, outputs)) => match spec_field(b, 3, 2) {
                    Err(e) => Err(e),
                    Ok(c) => match decode_code(c) {
                        Err(e) => Err(e),
                        Ok(code) => Ok(FunctionView { name, inputs, outputs, code }),
                    },
                },
            },
        },
    }
}

/// The functions of a program, in order, or the first defect in it.
pub open spec fn decode_program(b: Seq<u8>) -> Result<Seq<FunctionView>, DecodeError>
    decreases b.len(),
{
    match first_variable_sized(b) {
        None => Ok(Seq::empty()),
        Some(Err(e)) => Err(e),
        Some(Ok((item, rest))) => match decode_function(item) {
            Err(e) => Err(e),
            Ok(f) => match decode_program(rest) {
                Err(e) => Err(e),
                Ok(fs) => Ok(seq![f] + fs),
            },
        },
    }
}

/// The functions of a program, each decoded on its own: a defect inside one
/// function record is that function's alone, while a defect in the framing
/// of the records is the program's.
pub open spec fn decode_items(b: Seq<u8>) -> Result<Seq<Result<FunctionView, DecodeError>>, DecodeError>
    decreases b.len(),
{
    match first_variable_sized(b) {
        None => Ok(Seq::empty()),
        Some(Err(e)) => Err(e),
        Some(Ok((item, rest))) => match decode_items(rest) {
            Err(e) => Err(e),
            Ok(fs) => Ok(seq![decode_function(item)] + fs),
        },
    }
}

/// Every instruction takes at least two bytes, so a stream has at most half
/// as many instructions as bytes.
pub proof fn lemma_code_shorter_than_bytes(b: Seq<u8>)
    ensures
        decode_code(b) matches Ok(code) ==> 2 * code.len() <= b.len(),
    decreases b.len(),
{
    if b.len() > 0 {
        match decode_inst(b) {
            Ok((i, n)) => {
                if 0 < n <= b.len() {
                    lemma_code_shorter_than_bytes(b.subrange(n, b.len() as int));
                    assert(n >= 2);
                }
            },
            Err(_) => {},
        }
    }
}

} // verus!
