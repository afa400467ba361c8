//! Writing programs in the wire format.

use vstd::prelude::*;
use crate::buf::ByteBuf;
use crate::bytecode::{code_view, BlockId, Cond, Function, Inst, InstView, Program, VarId};
use crate::error::EncodeError;
use crate::ir_bytecode::functions_view;
use crate::ir_ty::Ty;
use crate::slice_ext::{lemma_le_u32_of_bytes, u16_le, u32_le};
use crate::wire::{
    encode_arm, encode_code, encode_cond, encode_function, encode_ids, encode_inst,
    encode_program, encode_signature, function_encodable, inst_encodable, program_encodable,
    COND_OP11, COND_OP21, COND_VAR, MAX_LIST, TAG_BLOCK, TAG_GOTO, TAG_IF, TAG_IMM_BOOL,
    TAG_IMM_I6, TAG_IMM_I64, TAG_OP11, TAG_OP21, TAG_OP31, TAG_RETURN,
};

verus! {

/// The bytes of a list grow by the bytes of the item appended to it.
pub proof fn lemma_encode_ids_push(s: Seq<VarId>, x: VarId)
    ensures
        encode_ids(s.push(x)) == encode_ids(s) + u16_le(x.0),
{
    assert(encode_ids(s.push(x)) =~= encode_ids(s) + u16_le(x.0));
}

/// The bytes of a list of types grow by the byte of the type appended to it.
pub proof fn lemma_encode_types_push(s: Seq<Ty>, t: Ty)
    ensures
        Ty::encode_all(s.push(t)) == Ty::encode_all(s) + seq![t.spec_tag()],
{
    assert(Ty::encode_all(s.push(t)) =~= Ty::encode_all(s) + seq![t.spec_tag()]);
}

/// Appends the bytes of a list of value indices.
fn put_ids(buf: &mut ByteBuf, ids: &Vec<VarId>)
    ensures
        final(buf)@ == old(buf)@ + encode_ids(ids@),
{
    let n = ids.len();
    let mut i: usize = 0;
    assert(buf@ =~= old(buf)@ + encode_ids(ids@.subrange(0, 0)));
    while i < n
        invariant
            n == ids@.len(),
            i <= n,
            buf@ == old(buf)@ + encode_ids(ids@.subrange(0, i as int)),
        decreases n - i,
    {
        buf.put_u16(ids[i].0);
        proof {
            lemma_encode_ids_push(ids@.subrange(0, i as int), ids@[i as int]);
            assert(ids@.subrange(0, i + 1) =~= ids@.subrange(0, i as int).push(ids@[i as int]));
            assert(buf@ =~= old(buf)@ + encode_ids(ids@.subrange(0, i + 1)));
        }
        i += 1;
    }
    assert(ids@.subrange(0, n as int) =~= ids@);
}

/// Appends the bytes of a list of types.
fn put_types(buf: &mut ByteBuf, tys: &Vec<Ty>)
    ensures
        final(buf)@ == old(buf)@ + Ty::encode_all(tys@),
{
    let n = tys.len();
    let mut i: usize = 0;
    assert(buf@ =~= old(buf)@ + Ty::encode_all(tys@.subrange(0, 0)));
    while i < n
        invariant
            n == tys@.len(),
            i <= n,
            buf@ == old(buf)@ + Ty::encode_all(tys@.subrange(0, i as int)),
        decreases n - i,
    {
        buf.put_u8(tys[i].tag());
        proof {
            lemma_encode_types_push(tys@.subrange(0, i as int), tys@[i as int]);
            assert(tys@.subrange(0, i + 1) =~= tys@.subrange(0, i as int).push(tys@[i as int]));
            assert(buf@ =~= old(buf)@ + Ty::encode_all(tys@.subrange(0, i + 1)));
        }
        i += 1;
    }
    assert(tys@.subrange(0, n as int) =~= tys@);
}

/// Appends one arm of a jump.
fn put_arm(buf: &mut ByteBuf, target: BlockId, args: &Vec<VarId>)
    requires
        args@.len() <= MAX_LIST,
    ensures
        final(buf)@ == old(buf)@ + encode_arm(target, args@),
{
    buf.put_u16(args.len() as u16);
    buf.put_u16(target.0);
    put_ids(buf, args);
    assert(buf@ =~= old(buf)@ + encode_arm(target, args@));
}

/// Appends a branch condition.
fn put_cond(buf: &mut ByteBuf, c: Cond)
    ensures
        final(buf)@ == old(buf)@ + encode_cond(c),
{
    match c {
        Cond::Var(x) => {
            buf.put_u8(COND_VAR);
            buf.put_u16(x.0);
        },
        Cond::Op11(op, x) => {
            buf.put_u8(COND_OP11);
            buf.put_u8(op.tag());
            buf.put_u16(x.0);
        },
        Cond::Op21(op, x, y) => {
            buf.put_u8(COND_OP21);
            buf.put_u8(op.tag());
            buf.put_u16(x.0);
            buf.put_u16(y.0);
        },
    }
    assert(buf@ =~= old(buf)@ + encode_cond(c));
}

impl Inst {
    /// Whether the lists of the instruction are short enough to be written.
    pub fn encodable(&self) -> (r: bool)
        ensures
            r == inst_encodable(self@),
    {
        match self {
            Inst::Block(tys) => tys.len() <= MAX_LIST,
            Inst::Goto(_, args) => args.len() <= MAX_LIST,
            Inst::If(_, _, targs, _, eargs) => targs.len() <= MAX_LIST && eargs.len() <= MAX_LIST,
            Inst::ImmI6(x) => {
                let _ = x.value();
                true
            },
            Inst::Ret(args) => args.len() <= MAX_LIST,
            _ => true,
        }
    }

    /// Appends the bytes of the instruction to `buf`. Where a list is too
    /// long for its count, nothing is written.
    pub fn encode(&self, buf: &mut ByteBuf) -> (r: Result<(), EncodeError>)
        ensures
            inst_encodable(self@) ==> r is Ok && final(buf)@ == old(buf)@ + encode_inst(self@),
            !inst_encodable(self@) ==> r == Err::<(), EncodeError>(EncodeError::TooLong) && final(buf)@ == old(buf)@,
    {
        if !self.encodable() {
            return Err(EncodeError::TooLong);
        }
        match self {
            Inst::Block(tys) => {
                buf.put_u8(TAG_BLOCK);
                buf.put_u16(tys.len() as u16);
                put_types(buf, tys);
            },
            Inst::Goto(t, args) => {
                buf.put_u8(TAG_GOTO);
                put_arm(buf, *t, args);
            },
            Inst::If(c, t, targs, e, eargs) => {
                buf.put_u8(TAG_IF);
                put_cond(buf, *c);
                put_arm(buf, *t, targs);
                put_arm(buf, *e, eargs);
            },
            Inst::ImmBool(b) => {
                buf.put_u8(TAG_IMM_BOOL);
                buf.put_u8(
                    if *b {
                        1
                    } else {
                        0
                    },
                );
            },
            Inst::ImmI6(x) => {
                buf.put_u8(TAG_IMM_I6);
                buf.put_u8(x.value());
            },
            Inst::ImmI64(x) => {
                buf.put_u8(TAG_IMM_I64);
                buf.put_u64(*x);
            },
            Inst::Op11(op, x) => {
                buf.put_u8(TAG_OP11);
                buf.put_u8(op.tag());
                buf.put_u16(x.0);
            },
            Inst::Op21(op, x, y) => {
                buf.put_u8(TAG_OP21);
                buf.put_u8(op.tag());
                buf.put_u16(x.0);
                buf.put_u16(y.0);
            },
            Inst::Op31(op, x, y, z) => {
                buf.put_u8(TAG_OP31);
                buf.put_u8(op.tag());
                buf.put_u16(x.0);
                buf.put_u16(y.0);
                buf.put_u16(z.0);
            },
            Inst::Ret(args) => {
                buf.put_u8(TAG_RETURN);
                buf.put_u16(args.len() as u16);
                put_ids(buf, args);
            },
        }
        assert(buf@ =~= old(buf)@ + encode_inst(self@));
        Ok(())
    }
}

/// The bytes of a stream grow by the bytes of the instruction appended to it.
pub proof fn lemma_encode_code_push(code: Seq<InstView>, i: InstView)
    ensures
        encode_code(code.push(i)) == encode_code(code) + encode_inst(i),
{
    assert(code.push(i).drop_last() =~= code);
}

impl Function {
    /// Appends the bytes of the function to `buf`. Where the function cannot
    /// be written, `buf` is left as it was.
    pub fn encode(&self, buf: &mut ByteBuf) -> (r: Result<(), EncodeError>)
        ensures
            function_encodable(self@) ==> r is Ok && final(buf)@ == old(buf)@ + encode_function(
                self@,
            ),
            !function_encodable(self@) ==> r == Err::<(), EncodeError>(EncodeError::TooLong)
                && final(buf)@ == old(buf)@,
    {
        let name = self.name.as_str().as_bytes();
        let inputs = &self.signature.inputs;
        let outputs = &self.signature.outputs;
        let limit: usize = 0xffff_ffff;
        if name.len() > limit || inputs.len() > limit || outputs.len() > limit {
            return Err(EncodeError::TooLong);
        }
        let sig_len: u64 = 4 + inputs.len() as u64 + outputs.len() as u64;
        let end_of_sig: u64 = name.len() as u64 + sig_len;
        if end_of_sig > 0xffff_ffff {
            return Err(EncodeError::TooLong);
        }
        let start = buf.len();
        buf.put_u32(name.len() as u32);
        buf.put_u32(end_of_sig as u32);
        buf.put_slice(name);
        buf.put_u32(inputs.len() as u32);
        put_types(buf, inputs);
        put_types(buf, outputs);
        let ghost head = buf@;
        proof {
            lemma_le_u32_of_bytes(inputs.len() as u32);
            crate::ir_ty::lemma_ty_list_round_trip(inputs@);
            crate::ir_ty::lemma_ty_list_round_trip(outputs@);
            assert(encode_signature(inputs@, outputs@).len() == sig_len);
            assert(head =~= old(buf)@ + (u32_le(name@.len() as u32) + u32_le(end_of_sig as u32)
                + name@ + encode_signature(inputs@, outputs@)));
            assert(head.subrange(0, start as int) =~= old(buf)@);
        }
        let n = self.code.len();
        let mut i: usize = 0;
        assert(self.code@.subrange(0, 0) =~= Seq::<Inst>::empty());
        assert(buf@ =~= head + encode_code(code_view(self.code@.subrange(0, 0))));
        while i < n
            invariant
                n == self.code@.len(),
                i <= n,
                start == old(buf)@.len(),
                head.subrange(0, start as int) == old(buf)@,
                start <= head.len(),
                buf@ == head + encode_code(code_view(self.code@.subrange(0, i as int))),
                forall|j: int| 0 <= j < i ==> inst_encodable(#[trigger] self@.code[j]),
            decreases n - i,
        {
            match self.code[i].encode(buf) {
                Ok(()) => {},
                Err(e) => {
                    assert(!inst_encodable(self@.code[i as int]));
                    buf.truncate(start);
                    assert(buf@ =~= old(buf)@);
                    return Err(e);
                },
            }
            proof {
                let prev = code_view(self.code@.subrange(0, i as int));
                lemma_encode_code_push(prev, self.code@[i as int]@);
                assert(code_view(self.code@.subrange(0, i + 1)) =~= prev.push(
                    self.code@[i as int]@,
                ));
                assert(buf@ =~= head + encode_code(code_view(self.code@.subrange(0, i + 1))));
            }
            i += 1;
        }
        proof {
            assert(self.code@.subrange(0, n as int) =~= self.code@);
            assert(buf@ =~= old(buf)@ + encode_function(self@));
        }
        Ok(())
    }
}

/// The bytes of a program grow by the framed bytes of the function appended
/// to it.
pub proof fn lemma_encode_program_push(p: Seq<crate::bytecode::FunctionView>, f: crate::bytecode::FunctionView)
    ensures
        encode_program(p.push(f)) == encode_program(p) + u32_le(encode_function(f).len() as u32)
            + encode_function(f),
{
    assert(p.push(f).drop_last() =~= p);
}

impl Program {
    /// The bytes of the program, where it can be written.
    pub fn encode(&self) -> (r: Result<Vec<u8>, EncodeError>)
        ensures
            program_encodable(self@) ==> r is Ok && r.unwrap()@ == encode_program(self@),
            !program_encodable(self@) ==> r == Err::<Vec<u8>, EncodeError>(EncodeError::TooLong),
    {
        let mut buf = ByteBuf::new();
        let n = self.functions.len();
        let mut i: usize = 0;
        assert(functions_view(self.functions@.subrange(0, 0)) =~= Seq::empty());
        while i < n
            invariant
                n == self.functions@.len(),
                i <= n,
                buf@ == encode_program(functions_view(self.functions@.subrange(0, i as int))),
                forall|j: int|
                    0 <= j < i ==> function_encodable(#[trigger] self@[j]) && encode_function(
                        self@[j],
                    ).len() <= u32::MAX,
            decreases n - i,
        {
            let ghost before = buf@;
            let ghost fv = self.functions@[i as int]@;
            assert(fv == self@[i as int]);
            let pos = buf.len();
            buf.put_u32(0);
            match self.functions[i].encode(&mut buf) {
                Ok(()) => {},
                Err(e) => {
                    return Err(e);
                },
            }
            let flen = buf.len() - pos - 4;
            if flen > 0xffff_ffff {
                return Err(EncodeError::TooLong);
            }
            buf.set_u32(pos, flen as u32);
            proof {
                lemma_le_u32_of_bytes(0u32);
                lemma_le_u32_of_bytes(flen as u32);
                assert(buf@ =~= before + u32_le(flen as u32) + encode_function(fv));
                let prev = functions_view(self.functions@.subrange(0, i as int));
                lemma_encode_program_push(prev, fv);
                assert(functions_view(self.functions@.subrange(0, i + 1)) =~= prev.push(fv));
            }
            i += 1;
        }
        proof {
            assert(self.functions@.subrange(0, n as int) =~= self.functions@);
            assert(functions_view(self.functions@) =~= self@);
        }
        Ok(buf.into_bytes())
    }
}

} // verus!
