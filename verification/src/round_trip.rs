//! Reading back what was written: every value that can be written in the
//! wire format is recovered, field for field, by decoding its bytes.

use vstd::prelude::*;
use vstd::utf8::{decode_utf8, encode_utf8, valid_utf8};
use crate::bc::{first_variable_sized, spec_field};
use crate::bytecode::{BlockId, Cond, FunctionView, InstView, VarId};
use crate::error::DecodeError;
use crate::ir_op::{lemma_op11_table, lemma_op21_table, lemma_op31_table};
use crate::ir_ty::{lemma_ty_list_round_trip, Ty};
use crate::slice_ext::{
    lemma_le_u16_of_bytes, lemma_le_u32_of_bytes, lemma_le_u64_of_bytes, u16_le,
    u32_le, u64_le,
};
use crate::wire::{
    decode_arm, decode_code, decode_cond, decode_function, decode_ids,
    decode_if, decode_inst, decode_program, decode_signature, encode_arm, encode_code,
    encode_cond, encode_function, encode_ids, encode_inst, encode_program, encode_signature,
    function_encodable, inst_encodable, program_encodable, MAX_LIST,
};

verus! {

/// A list of value indices survives being written and read back.
pub proof fn lemma_ids_round_trip(s: Seq<VarId>)
    ensures
        encode_ids(s).len() == 2 * s.len(),
        decode_ids(encode_ids(s)) == s,
{
    let b = encode_ids(s);
    assert forall|i: int| 0 <= i < s.len() implies decode_ids(b)[i] == s[i] by {
        lemma_le_u16_of_bytes(s[i].0);
        assert(b.subrange(2 * i, 2 * i + 2) =~= u16_le(s[i].0));
    }
    assert(decode_ids(b) =~= s);
}

/// A jump arm is read back from the front of any bytes that begin with it.
pub proof fn lemma_arm_round_trip(t: BlockId, args: Seq<VarId>, tail: Seq<u8>)
    requires
        args.len() <= MAX_LIST,
    ensures
        encode_arm(t, args).len() == 4 + 2 * args.len(),
        decode_arm(encode_arm(t, args) + tail) == Ok::<(BlockId, Seq<VarId>, int), DecodeError>(
            (t, args, 4 + 2 * (args.len() as int)),
        ),
{
    let n = args.len() as int;
    let p = encode_arm(t, args) + tail;
    lemma_le_u16_of_bytes(n as u16);
    lemma_le_u16_of_bytes(t.0);
    lemma_ids_round_trip(args);
    assert(p.subrange(0, 2) =~= u16_le(n as u16));
    assert(p.subrange(2, 4) =~= u16_le(t.0));
    assert(p.subrange(4, 4 + 2 * n) =~= encode_ids(args));
}

/// A branch condition is read back from the front of any bytes that begin
/// with it.
pub proof fn lemma_cond_round_trip(c: Cond, tail: Seq<u8>)
    ensures
        3 <= encode_cond(c).len() <= 6,
        decode_cond(encode_cond(c) + tail) == Ok::<(Cond, int), DecodeError>(
            (c, encode_cond(c).len() as int),
        ),
{
    let p = encode_cond(c) + tail;
    match c {
        Cond::Var(x) => {
            lemma_le_u16_of_bytes(x.0);
            assert(p.subrange(1, 3) =~= u16_le(x.0));
        },
        Cond::Op11(op, x) => {
            lemma_le_u16_of_bytes(x.0);
            lemma_op11_table(op);
            assert(p.subrange(2, 4) =~= u16_le(x.0));
        },
        Cond::Op21(op, x, y) => {
            lemma_le_u16_of_bytes(x.0);
            lemma_le_u16_of_bytes(y.0);
            lemma_op21_table(op);
            assert(p.subrange(2, 4) =~= u16_le(x.0));
            assert(p.subrange(4, 6) =~= u16_le(y.0));
        },
    }
}

proof fn lemma_block_round_trip(i: InstView, tail: Seq<u8>)
    requires
        inst_encodable(i),
        i is Block,
    ensures
        encode_inst(i).len() >= 2,
        decode_inst(encode_inst(i) + tail) == Ok::<(InstView, int), DecodeError>(
            (i, encode_inst(i).len() as int),
        ),
{
    let b = encode_inst(i) + tail;
    let p = b.subrange(1, b.len() as int);
    match i {
        InstView::Block(tys) => {
            let n = tys.len() as int;
            lemma_le_u16_of_bytes(n as u16);
            lemma_ty_list_round_trip(tys);
            assert(p.subrange(0, 2) =~= u16_le(n as u16));
            assert(p.subrange(2, 2 + n) =~= Ty::encode_all(tys));
        },
        _ => {},
    }
}

proof fn lemma_goto_round_trip(i: InstView, tail: Seq<u8>)
    requires
        inst_encodable(i),
        i is Goto,
    ensures
        encode_inst(i).len() >= 2,
        decode_inst(encode_inst(i) + tail) == Ok::<(InstView, int), DecodeError>(
            (i, encode_inst(i).len() as int),
        ),
{
    let b = encode_inst(i) + tail;
    let p = b.subrange(1, b.len() as int);
    match i {
        InstView::Goto(t, args) => {
            lemma_arm_round_trip(t, args, tail);
            assert(p =~= encode_arm(t, args) + tail);
        },
        _ => {},
    }
}

proof fn lemma_if_payload(
    c: Cond,
    t: BlockId,
    targs: Seq<VarId>,
    e: BlockId,
    eargs: Seq<VarId>,
    tail: Seq<u8>,
)
    requires
        targs.len() <= MAX_LIST,
        eargs.len() <= MAX_LIST,
    ensures
        decode_if(encode_cond(c) + (encode_arm(t, targs) + (encode_arm(e, eargs) + tail))) == Ok::<
            (InstView, int),
            DecodeError,
        >(
            (
                InstView::If(c, t, targs, e, eargs),
                (encode_cond(c).len() + encode_arm(t, targs).len() + encode_arm(e, eargs).len()) as int,
            ),
        ),
{
    let a1 = encode_arm(t, targs);
    let a2 = encode_arm(e, eargs);
    let p = encode_cond(c) + (a1 + (a2 + tail));
    let n0 = encode_cond(c).len() as int;
    let n1 = a1.len() as int;
    lemma_cond_round_trip(c, a1 + (a2 + tail));
    assert(p.subrange(n0, p.len() as int) =~= a1 + (a2 + tail));
    lemma_arm_round_trip(t, targs, a2 + tail);
    assert(p.subrange(n0 + n1, p.len() as int) =~= a2 + tail);
    lemma_arm_round_trip(e, eargs, tail);
}

/// What follows the first byte of `tag`, `body` and `tail` written one after
/// another.
proof fn lemma_behind_tag(tag: u8, body: Seq<u8>, tail: Seq<u8>)
    ensures
        (seq![tag] + body + tail).len() == 1 + body.len() + tail.len(),
        (seq![tag] + body + tail)[0] == tag,
        (seq![tag] + body + tail).subrange(1, (1 + body.len() + tail.len()) as int) == body + tail,
{
    assert((seq![tag] + body + tail).subrange(1, (1 + body.len() + tail.len()) as int) =~= body + tail);
}

/// The bytes of a conditional jump, grouped as tag and payload.
proof fn lemma_if_bytes(c: Cond, t: BlockId, targs: Seq<VarId>, e: BlockId, eargs: Seq<VarId>, tail: Seq<u8>)
    ensures
        encode_inst(InstView::If(c, t, targs, e, eargs)) == seq![crate::wire::TAG_IF] + (
        encode_cond(c) + encode_arm(t, targs) + encode_arm(e, eargs)),
        encode_cond(c) + encode_arm(t, targs) + encode_arm(e, eargs) + tail == encode_cond(c) + (
        encode_arm(t, targs) + (encode_arm(e, eargs) + tail)),
{
    let ec = encode_cond(c);
    let a1 = encode_arm(t, targs);
    let a2 = encode_arm(e, eargs);
    assert(seq![crate::wire::TAG_IF] + ec + a1 + a2 =~= seq![crate::wire::TAG_IF] + (ec + a1 + a2));
    assert(ec + a1 + a2 + tail =~= ec + (a1 + (a2 + tail)));
}

proof fn lemma_if_round_trip(i: InstView, tail: Seq<u8>)
    requires
        inst_encodable(i),
        i is If,
    ensures
        encode_inst(i).len() >= 2,
        decode_inst(encode_inst(i) + tail) == Ok::<(InstView, int), DecodeError>(
            (i, encode_inst(i).len() as int),
        ),
{
    if let InstView::If(c, t, targs, e, eargs) = i {
        let body = encode_cond(c) + encode_arm(t, targs) + encode_arm(e, eargs);
        lemma_if_payload(c, t, targs, e, eargs, tail);
        lemma_if_bytes(c, t, targs, e, eargs, tail);
        lemma_behind_tag(crate::wire::TAG_IF, body, tail);
    }
}

proof fn lemma_immbool_round_trip(i: InstView, tail: Seq<u8>)
    requires
        inst_encodable(i),
        i is ImmBool,
    ensures
        encode_inst(i).len() >= 2,
        decode_inst(encode_inst(i) + tail) == Ok::<(InstView, int), DecodeError>(
            (i, encode_inst(i).len() as int),
        ),
{
    let b = encode_inst(i) + tail;
    let p = b.subrange(1, b.len() as int);
    match i {
        InstView::ImmBool(v) => {},
        _ => {},
    }
}

proof fn lemma_immi6_round_trip(i: InstView, tail: Seq<u8>)
    requires
        inst_encodable(i),
        i is ImmI6,
    ensures
        encode_inst(i).len() >= 2,
        decode_inst(encode_inst(i) + tail) == Ok::<(InstView, int), DecodeError>(
            (i, encode_inst(i).len() as int),
        ),
{
    let b = encode_inst(i) + tail;
    let p = b.subrange(1, b.len() as int);
    match i {
        InstView::ImmI6(x) => {},
        _ => {},
    }
}

proof fn lemma_immi64_round_trip(i: InstView, tail: Seq<u8>)
    requires
        inst_encodable(i),
        i is ImmI64,
    ensures
        encode_inst(i).len() >= 2,
        decode_inst(encode_inst(i) + tail) == Ok::<(InstView, int), DecodeError>(
            (i, encode_inst(i).len() as int),
        ),
{
    let b = encode_inst(i) + tail;
    let p = b.subrange(1, b.len() as int);
    match i {
        InstView::ImmI64(x) => {
            lemma_le_u64_of_bytes(x);
            assert(p.subrange(0, 8) =~= u64_le(x));
        },
        _ => {},
    }
}

proof fn lemma_op11_round_trip(i: InstView, tail: Seq<u8>)
    requires
        inst_encodable(i),
        i is Op11,
    ensures
        encode_inst(i).len() >= 2,
        decode_inst(encode_inst(i) + tail) == Ok::<(InstView, int), DecodeError>(
            (i, encode_inst(i).len() as int),
        ),
{
    let b = encode_inst(i) + tail;
    let p = b.subrange(1, b.len() as int);
    match i {
        InstView::Op11(op, x) => {
            lemma_le_u16_of_bytes(x.0);
            lemma_op11_table(op);
            assert(p.subrange(1, 3) =~= u16_le(x.0));
        },
        _ => {},
    }
}

proof fn lemma_op21_round_trip(i: InstView, tail: Seq<u8>)
    requires
        inst_encodable(i),
        i is Op21,
    ensures
        encode_inst(i).len() >= 2,
        decode_inst(encode_inst(i) + tail) == Ok::<(InstView, int), DecodeError>(
            (i, encode_inst(i).len() as int),
        ),
{
    let b = encode_inst(i) + tail;
    let p = b.subrange(1, b.len() as int);
    match i {
        InstView::Op21(op, x, y) => {
            lemma_le_u16_of_bytes(x.0);
            lemma_le_u16_of_bytes(y.0);
            lemma_op21_table(op);
            assert(p.subrange(1, 3) =~= u16_le(x.0));
            assert(p.subrange(3, 5) =~= u16_le(y.0));
        },
        _ => {},
    }
}

proof fn lemma_op31_round_trip(i: InstView, tail: Seq<u8>)
    requires
        inst_encodable(i),
        i is Op31,
    ensures
        encode_inst(i).len() >= 2,
        decode_inst(encode_inst(i) + tail) == Ok::<(InstView, int), DecodeError>(
            (i, encode_inst(i).len() as int),
        ),
{
    let b = encode_inst(i) + tail;
    let p = b.subrange(1, b.len() as int);
    match i {
        InstView::Op31(op, x, y, z) => {
            lemma_le_u16_of_bytes(x.0);
            lemma_le_u16_of_bytes(y.0);
            lemma_le_u16_of_bytes(z.0);
            lemma_op31_table(op);
            assert(p.subrange(1, 3) =~= u16_le(x.0));
            assert(p.subrange(3, 5) =~= u16_le(y.0));
            assert(p.subrange(5, 7) =~= u16_le(z.0));
        },
        _ => {},
    }
}

proof fn lemma_ret_round_trip(i: InstView, tail: Seq<u8>)
    requires
        inst_encodable(i),
        i is Ret,
    ensures
        encode_inst(i).len() >= 2,
        decode_inst(encode_inst(i) + tail) == Ok::<(InstView, int), DecodeError>(
            (i, encode_inst(i).len() as int),
        ),
{
    let b = encode_inst(i) + tail;
    let p = b.subrange(1, b.len() as int);
    match i {
        InstView::Ret(args) => {
            let n = args.len() as int;
            lemma_le_u16_of_bytes(n as u16);
            lemma_ids_round_trip(args);
            assert(p.subrange(0, 2) =~= u16_le(n as u16));
            assert(p.subrange(2, 2 + 2 * n) =~= encode_ids(args));
        },
        _ => {},
    }
}

/// An instruction is read back from the front of any bytes that begin with
/// it, and the reading takes exactly the bytes that the writing gave.
pub proof fn lemma_inst_round_trip(i: InstView, tail: Seq<u8>)
    requires
        inst_encodable(i),
    ensures
        encode_inst(i).len() >= 2,
        decode_inst(encode_inst(i) + tail) == Ok::<(InstView, int), DecodeError>(
            (i, encode_inst(i).len() as int),
        ),
{
    match i {
        InstView::Block(..) => lemma_block_round_trip(i, tail),
        InstView::Goto(..) => lemma_goto_round_trip(i, tail),
        InstView::If(..) => lemma_if_round_trip(i, tail),
        InstView::ImmBool(..) => lemma_immbool_round_trip(i, tail),
        InstView::ImmI6(..) => lemma_immi6_round_trip(i, tail),
        InstView::ImmI64(..) => lemma_immi64_round_trip(i, tail),
        InstView::Op11(..) => lemma_op11_round_trip(i, tail),
        InstView::Op21(..) => lemma_op21_round_trip(i, tail),
        InstView::Op31(..) => lemma_op31_round_trip(i, tail),
        InstView::Ret(..) => lemma_ret_round_trip(i, tail),
    }
}

/// The bytes of a stream begin with the bytes of its first instruction.
pub proof fn lemma_encode_code_front(i: InstView, rest: Seq<InstView>)
    ensures
        encode_code(seq![i] + rest) == encode_inst(i) + encode_code(rest),
    decreases rest.len(),
{
    let all = seq![i] + rest;
    if rest.len() == 0 {
        assert(all.drop_last() =~= Seq::<InstView>::empty());
        assert(encode_code(all.drop_last()) =~= Seq::<u8>::empty());
        assert(encode_code(all) =~= encode_inst(i));
        assert(encode_inst(i) + encode_code(rest) =~= encode_inst(i));
    } else {
        lemma_encode_code_front(i, rest.drop_last());
        assert(all.drop_last() =~= seq![i] + rest.drop_last());
        assert(all.last() == rest.last());
        assert(encode_inst(i) + encode_code(rest.drop_last()) + encode_inst(rest.last())
            =~= encode_inst(i) + (encode_code(rest.drop_last()) + encode_inst(rest.last())));
    }
}

/// What is left of `a` followed by `b` once `a` is taken off.
proof fn lemma_behind_prefix(a: Seq<u8>, b: Seq<u8>)
    ensures
        (a + b).subrange(a.len() as int, (a + b).len() as int) == b,
        (a + b).subrange(0, a.len() as int) == a,
        (a + b).len() == a.len() + b.len(),
{
    assert((a + b).subrange(a.len() as int, (a + b).len() as int) =~= b);
    assert((a + b).subrange(0, a.len() as int) =~= a);
}

/// An instruction stream survives being written and read back.
pub proof fn lemma_code_round_trip(code: Seq<InstView>)
    requires
        forall|i: int| 0 <= i < code.len() ==> inst_encodable(#[trigger] code[i]),
    ensures
        decode_code(encode_code(code)) == Ok::<Seq<InstView>, DecodeError>(code),
    decreases code.len(),
{
    if code.len() == 0 {
        assert(encode_code(code) =~= Seq::<u8>::empty());
        assert(code =~= Seq::<InstView>::empty());
    } else {
        let first = code[0];
        let rest = code.drop_first();
        assert(code =~= seq![first] + rest);
        lemma_encode_code_front(first, rest);
        assert forall|i: int| 0 <= i < rest.len() implies inst_encodable(#[trigger] rest[i]) by {
            assert(rest[i] == code[i + 1]);
        }
        lemma_code_round_trip(rest);
        lemma_inst_round_trip(first, encode_code(rest));
        lemma_behind_prefix(encode_inst(first), encode_code(rest));
    }
}

/// A record of two fields, as its offset table and payloads.
proof fn lemma_record_of_two(x: u32, a: Seq<u8>, b: Seq<u8>)
    requires
        x == a.len(),
    ensures
        spec_field(u32_le(x) + a + b, 2, 0) == Ok::<Seq<u8>, DecodeError>(a),
        spec_field(u32_le(x) + a + b, 2, 1) == Ok::<Seq<u8>, DecodeError>(b),
        (u32_le(x) + a + b).len() == 4 + a.len() + b.len(),
{
    let r = u32_le(x) + a + b;
    lemma_le_u32_of_bytes(x);
    assert(r.subrange(0, 4) =~= u32_le(x));
    assert(r.subrange(4, 4 + x) =~= a);
    assert(r.subrange(4 + x, r.len() as int) =~= b);
}

/// A record of three fields, as its offset table and payloads.
proof fn lemma_record_of_three(x: u32, y: u32, a: Seq<u8>, b: Seq<u8>, c: Seq<u8>)
    requires
        x == a.len(),
        y == a.len() + b.len(),
    ensures
        spec_field(u32_le(x) + u32_le(y) + a + b + c, 3, 0) == Ok::<Seq<u8>, DecodeError>(a),
        spec_field(u32_le(x) + u32_le(y) + a + b + c, 3, 1) == Ok::<Seq<u8>, DecodeError>(b),
        spec_field(u32_le(x) + u32_le(y) + a + b + c, 3, 2) == Ok::<Seq<u8>, DecodeError>(c),
        (u32_le(x) + u32_le(y) + a + b + c).len() == 8 + a.len() + b.len() + c.len(),
{
    let r = u32_le(x) + u32_le(y) + a + b + c;
    lemma_le_u32_of_bytes(x);
    lemma_le_u32_of_bytes(y);
    assert(r.subrange(0, 4) =~= u32_le(x));
    assert(r.subrange(4, 8) =~= u32_le(y));
    assert(r.subrange(8, 8 + x) =~= a);
    assert(r.subrange(8 + x, 8 + y) =~= b);
    assert(r.subrange(8 + y, r.len() as int) =~= c);
}

/// A signature survives being written and read back.
pub proof fn lemma_signature_round_trip(inputs: Seq<Ty>, outputs: Seq<Ty>)
    requires
        inputs.len() <= u32::MAX,
    ensures
        encode_signature(inputs, outputs).len() == 4 + inputs.len() + outputs.len(),
        decode_signature(encode_signature(inputs, outputs)) == Ok::<
            (Seq<Ty>, Seq<Ty>),
            DecodeError,
        >((inputs, outputs)),
{
    lemma_ty_list_round_trip(inputs);
    lemma_ty_list_round_trip(outputs);
    lemma_record_of_two(inputs.len() as u32, Ty::encode_all(inputs), Ty::encode_all(outputs));
}

/// A function survives being written and read back.
pub proof fn lemma_function_round_trip(f: FunctionView)
    requires
        function_encodable(f),
    ensures
        decode_function(encode_function(f)) == Ok::<FunctionView, DecodeError>(f),
{
    broadcast use {vstd::utf8::encode_utf8_valid_utf8, vstd::utf8::encode_utf8_decode_utf8};

    let name = encode_utf8(f.name);
    let sig = encode_signature(f.inputs, f.outputs);
    let code = encode_code(f.code);
    lemma_signature_round_trip(f.inputs, f.outputs);
    lemma_code_round_trip(f.code);
    lemma_record_of_three(name.len() as u32, (name.len() + sig.len()) as u32, name, sig, code);
    assert(valid_utf8(name));
    assert(decode_utf8(name) == f.name);
    let g = decode_function(encode_function(f)).unwrap();
    assert(g.name == f.name);
    assert(g.inputs == f.inputs);
    assert(g.outputs == f.outputs);
    assert(g.code == f.code);
}

/// The bytes of a program begin with the framed bytes of its first function.
pub proof fn lemma_encode_program_front(f: FunctionView, rest: Seq<FunctionView>)
    ensures
        encode_program(seq![f] + rest) == u32_le(encode_function(f).len() as u32) + encode_function(
            f,
        ) + encode_program(rest),
    decreases rest.len(),
{
    let all = seq![f] + rest;
    let frame = u32_le(encode_function(f).len() as u32) + encode_function(f);
    if rest.len() == 0 {
        assert(all.drop_last() =~= Seq::<FunctionView>::empty());
        assert(encode_program(all.drop_last()) =~= Seq::<u8>::empty());
        assert(encode_program(all) =~= frame);
        assert(frame + encode_program(rest) =~= frame);
    } else {
        lemma_encode_program_front(f, rest.drop_last());
        assert(all.drop_last() =~= seq![f] + rest.drop_last());
        assert(all.last() == rest.last());
        let last = u32_le(encode_function(rest.last()).len() as u32) + encode_function(rest.last());
        assert(frame + encode_program(rest.drop_last()) + u32_le(
            encode_function(rest.last()).len() as u32,
        ) + encode_function(rest.last()) =~= frame + (encode_program(rest.drop_last()) + u32_le(
            encode_function(rest.last()).len() as u32,
        ) + encode_function(rest.last())));
    }
}

/// A framed item at the front of a run is found, with the run behind it.
proof fn lemma_first_framed(item: Seq<u8>, tail: Seq<u8>)
    requires
        item.len() <= u32::MAX,
    ensures
        first_variable_sized(u32_le(item.len() as u32) + item + tail) == Some(
            Ok::<(Seq<u8>, Seq<u8>), DecodeError>((item, tail)),
        ),
{
    let r = u32_le(item.len() as u32) + item + tail;
    lemma_le_u32_of_bytes(item.len() as u32);
    assert(r.subrange(0, 4) =~= u32_le(item.len() as u32));
    assert(r.subrange(4, 4 + item.len() as int) =~= item);
    assert(r.subrange(4 + item.len() as int, r.len() as int) =~= tail);
}

/// Encoding a program and decoding the bytes gives the program back: the
/// same functions in the same order, each with the same name, signature and
/// instructions.
pub proof fn lemma_program_round_trip(p: Seq<FunctionView>)
    requires
        program_encodable(p),
    ensures
        decode_program(encode_program(p)) == Ok::<Seq<FunctionView>, DecodeError>(p),
    decreases p.len(),
{
    if p.len() == 0 {
        assert(encode_program(p) =~= Seq::<u8>::empty());
        assert(p =~= Seq::<FunctionView>::empty());
    } else {
        let first = p[0];
        let rest = p.drop_first();
        assert(p =~= seq![first] + rest);
        lemma_encode_program_front(first, rest);
        assert forall|i: int| 0 <= i < rest.len() implies function_encodable(#[trigger] rest[i])
            && encode_function(rest[i]).len() <= u32::MAX by {
            assert(rest[i] == p[i + 1]);
        }
        lemma_program_round_trip(rest);
        lemma_function_round_trip(first);
        lemma_first_framed(encode_function(first), encode_program(rest));
    }
}

} // verus!
