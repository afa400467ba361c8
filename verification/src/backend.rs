//! The lowering engine: drives the code generator to turn validated
//! functions into native code, and a program into a relocatable object.

use vstd::prelude::*;
use cranelift_frontend::FunctionBuilder;
use crate::bytecode::{Cond, Function, FunctionView, Inst, InstView, Program, VarId};
use crate::codegen::{
    add_param, add_return, append_block_param, built, contents, copy_context, create_block,
    declare_function, define_function, defining, emit_band, emit_bitrev, emit_bnot, emit_bor,
    emit_brif, emit_bswap, emit_bxor, emit_bxor_imm, emit_clz, emit_ctz, emit_iabs, emit_iadd,
    emit_icmp, emit_icmp_imm, emit_iconst, emit_imul, emit_ineg, emit_ireduce, emit_ishl,
    emit_isplit_hi, emit_isub, emit_jump, emit_object, emit_popcnt, emit_return, emit_rotl,
    emit_rotr, emit_select, emit_smax, emit_smin, emit_smulhi, emit_sshr, emit_umax, emit_umin,
    emit_umulhi, emit_ushr, failure_kind, finalize, finish, flags_new, held, new_builder,
    new_builder_context, new_context, object_builder, object_module, parse_triple, readable,
    reset_signature, seal_all_blocks, set_opt_level, settings_builder, supported,
    switch_to_block, writing, Convention, ModuleFailure, Visibility,
};
use crate::error::{CompileError, DecodeError, LoweringError};
use crate::ir_bytecode::{items_view, Prog};
use crate::ir_ty::Ty;
use crate::lower::{
    advance, agree, block_at, blocks_upto, body, computations, cond_cost, cond_events,
    cond_value, cost, creations, cursor_at, entered, entry_events, events_upto, fits,
    inst_events, larger, lemma_advance_grows, lemma_cursor_matches_scope, lemma_events_stable,
    lemma_made_grows, lemma_natives_total, lemma_span_grows, lower_op11, lower_op21, lower_op31,
    lowering, made, natives, new_temps, new_values, operand_types, operands, parameters, pick,
    span, temps_upto, values_upto, within_limits, Cursor,
};
use crate::native::{
    allowed, applied, apply, branched, can_finish, compile_valtype, created, declared_in,
    declaring, defined_in, fresh, jumped, known, lemma_request_push, lemma_summarize_push,
    native_type,
    native_types, param, result_type, returned, summarize, switched, vacant, width, BlockStatus,
    Declaration, Emitted, Image, NativeFunction, NativeOp, NativeSignature, NativeTy, Request,
    Setup, Summary, NUMBER_LIMIT, PARAMS_LIMIT,
};
use crate::prelude::{has_nul, map_slice, max};
use crate::typing::{
    check, check_function, cond_inputs, cond_uses, declared_blocks, lemma_args_typed,
    lemma_cond_typed, lemma_operands_from, lemma_passes_throughout, operands_typed, scope_at,
    step, Scope,
};
use crate::wire::decode_items;

verus! {

/// Appends one primitive to the current block and gives its value.
///
/// The catalogue is closed: every primitive has its builder call here, so
/// nothing that the lowering asks for can go unhandled.
fn emit(fb: &mut FunctionBuilder<'_>, op: NativeOp, args: &[u32]) -> (r: u32)
    requires
        allowed(summarize(built(old(fb))), applied(op, args@, 0)),
    ensures
        built(final(fb)) == built(old(fb)).push(applied(op, args@, r)),
        fresh(summarize(built(old(fb))), applied(op, args@, r)),
{
    proof {
        let s = summarize(built(old(fb)));
        assert(result_type(op, s.types_of(args@)) is Some);
        assert(s.types_of(args@).len() == args@.len());
        if args@.len() == 0 {
            assert(args@ =~= Seq::<u32>::empty());
        }
        if args@.len() == 1 {
            assert(args@ =~= seq![args@[0]]);
        }
        if args@.len() == 2 {
            assert(args@ =~= seq![args@[0], args@[1]]);
        }
        if args@.len() == 3 {
            assert(args@ =~= seq![args@[0], args@[1], args@[2]]);
        }
    }
    match op {
        NativeOp::Iconst(ty, imm) => emit_iconst(fb, ty, imm),
        NativeOp::BxorImm(imm) => emit_bxor_imm(fb, args[0], imm),
        NativeOp::IcmpImm(cc, imm) => emit_icmp_imm(fb, cc, args[0], imm),
        NativeOp::Ireduce(ty) => emit_ireduce(fb, ty, args[0]),
        NativeOp::IsplitHi => emit_isplit_hi(fb, args[0]),
        NativeOp::Bnot => emit_bnot(fb, args[0]),
        NativeOp::Iabs => emit_iabs(fb, args[0]),
        NativeOp::Ineg => emit_ineg(fb, args[0]),
        NativeOp::Clz => emit_clz(fb, args[0]),
        NativeOp::Ctz => emit_ctz(fb, args[0]),
        NativeOp::Popcnt => emit_popcnt(fb, args[0]),
        NativeOp::Bitrev => emit_bitrev(fb, args[0]),
        NativeOp::Bswap => emit_bswap(fb, args[0]),
        NativeOp::Band => emit_band(fb, args[0], args[1]),
        NativeOp::Bor => emit_bor(fb, args[0], args[1]),
        NativeOp::Bxor => emit_bxor(fb, args[0], args[1]),
        NativeOp::Iadd => emit_iadd(fb, args[0], args[1]),
        NativeOp::Isub => emit_isub(fb, args[0], args[1]),
        NativeOp::Imul => emit_imul(fb, args[0], args[1]),
        NativeOp::Smulhi => emit_smulhi(fb, args[0], args[1]),
        NativeOp::Umulhi => emit_umulhi(fb, args[0], args[1]),
        NativeOp::Smax => emit_smax(fb, args[0], args[1]),
        NativeOp::Umax => emit_umax(fb, args[0], args[1]),
        NativeOp::Smin => emit_smin(fb, args[0], args[1]),
        NativeOp::Umin => emit_umin(fb, args[0], args[1]),
        NativeOp::Rotl => emit_rotl(fb, args[0], args[1]),
        NativeOp::Rotr => emit_rotr(fb, args[0], args[1]),
        NativeOp::Ishl => emit_ishl(fb, args[0], args[1]),
        NativeOp::Sshr => emit_sshr(fb, args[0], args[1]),
        NativeOp::Ushr => emit_ushr(fb, args[0], args[1]),
        NativeOp::Icmp(cc) => emit_icmp(fb, cc, args[0], args[1]),
        NativeOp::Select => emit_select(fb, args[0], args[1], args[2]),
    }
}

/// Whether the block at place `j` of the table is filled as far as its
/// place in the stream says: a block that the stream has not declared yet is
/// pristine, the open block is not ended, and every other block, the native
/// entry among them, is ended.
pub open spec fn block_state_ok(st: BlockStatus, j: int, c: Cursor) -> bool {
    if j > c.declared {
        st == (BlockStatus::Pristine { params: 0 })
    } else if j == c.declared && c.open {
        !(st is Filled)
    } else {
        st is Filled
    }
}

/// Whether the tables of a lowering in progress agree with what the builder
/// was told: every value in the table is defined with the native type of its
/// variable, the blocks in the table are distinct and filled as far as the
/// stream says and numbered by their places, and the builder is at the block
/// declared last.
pub open spec fn in_step(s: Summary, v: Seq<u32>, b: Seq<u32>, vars: Seq<Ty>, c: Cursor) -> bool {
    &&& v.len() == c.values
    &&& vars.len() == c.values
    &&& b.len() == c.created
    &&& 1 <= c.declared < c.created
    &&& forall|k: int|
        0 <= k < v.len() ==> s.types.dom().contains(#[trigger] v[k]) && s.types[v[k]]
            == native_type(vars[k])
    &&& forall|j: int|
        0 <= j < b.len() ==> s.status.dom().contains(#[trigger] b[j]) && block_state_ok(
            s.status[b[j]],
            j,
            c,
        )
    &&& forall|j: int, k: int| 0 <= j < k < b.len() ==> #[trigger] b[j] != #[trigger] b[k]
    &&& forall|x: u32| #[trigger] s.status.dom().contains(x) ==> b.contains(x)
    &&& forall|j: int| 0 <= j < b.len() ==> #[trigger] b[j] == j
    &&& s.blocks == b.len()
    &&& forall|k: int| 0 <= k < v.len() ==> #[trigger] v[k] < s.values
    &&& s.current == Some(b[c.declared])
    &&& s.sealed == Set::<u32>::empty()
}

/// Creates blocks until the table holds block `id`.
fn ensure_block(
    fb: &mut FunctionBuilder<'_>,
    blocks: &mut Vec<u32>,
    id: usize,
    Ghost(v): Ghost<Seq<u32>>,
    Ghost(vars): Ghost<Seq<Ty>>,
    Ghost(c): Ghost<Cursor>,
)
    requires
        in_step(summarize(built(old(fb))), v, old(blocks)@, vars, c),
        id < NUMBER_LIMIT,
    ensures
        final(blocks)@.len() == larger(c.created, id + 1),
        final(blocks)@.subrange(0, c.created) == old(blocks)@,
        summarize(built(final(fb))).values == summarize(built(old(fb))).values,
        built(final(fb)) == built(old(fb)) + creations(final(blocks)@, c.created, id + 1),
        in_step(
            summarize(built(final(fb))),
            v,
            final(blocks)@,
            vars,
            Cursor { created: larger(c.created, id + 1), ..c },
        ),
{
    assert(built(fb) =~= built(old(fb)) + creations(blocks@, c.created, c.created));
    assert(blocks@.subrange(0, c.created) =~= old(blocks)@);
    while blocks.len() <= id
        invariant
            id < NUMBER_LIMIT,
            old(blocks)@.len() == c.created,
            1 <= c.declared < c.created,
            c.created <= blocks@.len() <= larger(c.created, id + 1),
            summarize(built(fb)).values == summarize(built(old(fb))).values,
            blocks@.subrange(0, c.created) == old(blocks)@,
            built(fb) == built(old(fb)) + creations(blocks@, c.created, blocks@.len() as int),
            in_step(
                summarize(built(fb)),
                v,
                blocks@,
                vars,
                Cursor { created: blocks@.len() as int, ..c },
            ),
        decreases id + 1 - blocks@.len(),
    {
        let ghost log = built(fb);
        let ghost before = blocks@;
        let r = create_block(fb);
        blocks.push(r);
        proof {
            lemma_summarize_push(log, created(r));
            let s0 = summarize(log);
            let s1 = summarize(built(fb));
            assert(s1 == apply(s0, created(r)));
            assert forall|j: int| 0 <= j < blocks@.len() implies s1.status.dom().contains(
                #[trigger] blocks@[j],
            ) && block_state_ok(
                s1.status[blocks@[j]],
                j,
                Cursor { created: blocks@.len() as int, ..c },
            ) by {
                if j < before.len() {
                    assert(blocks@[j] == before[j]);
                    assert(s0.status.dom().contains(before[j]));
                }
            }
            assert forall|j: int, k: int| 0 <= j < k < blocks@.len() implies #[trigger] blocks@[j]
                != #[trigger] blocks@[k] by {
                if k < before.len() {
                    assert(blocks@[j] == before[j] && blocks@[k] == before[k]);
                } else {
                    assert(blocks@[j] == before[j]);
                    assert(s0.status.dom().contains(before[j]));
                }
            }
            assert forall|x: u32| #[trigger] s1.status.dom().contains(x) implies blocks@.contains(
                x,
            ) by {
                if x == r {
                    assert(blocks@[before.len() as int] == r);
                } else {
                    assert(s0.status.dom().contains(x));
                    let j = choose|j: int| 0 <= j < before.len() && before[j] == x;
                    assert(blocks@[j] == x);
                }
            }
            assert(blocks@[c.declared] == before[c.declared]);
            assert(blocks@.subrange(0, c.created) =~= old(blocks)@);
            assert(built(fb) =~= built(old(fb)) + creations(
                blocks@,
                c.created,
                blocks@.len() as int,
            )) by {
                let a = creations(before, c.created, before.len() as int);
                let z = creations(blocks@, c.created, blocks@.len() as int);
                assert(z =~= a.push(created(r)));
            }
        }
    }
    proof {
        if c.created >= id + 1 {
            assert(creations(blocks@, c.created, id + 1) =~= creations(
                blocks@,
                c.created,
                blocks@.len() as int,
            ));
        }
    }
}

/// The numbers of the values `xs`, looked up in the value table.
fn gather(values: &Vec<u32>, xs: &[VarId]) -> (r: Vec<u32>)
    requires
        forall|k: int| 0 <= k < xs@.len() ==> (#[trigger] xs@[k]).0 < values@.len(),
    ensures
        r@ == pick(values@, xs@),
{
    let look = |x: &VarId| -> (v: u32)
        requires
            x.0 < values@.len(),
        ensures
            v == values@[x.0 as int],
        { values[x.0 as usize] };
    let r = map_slice(xs, look);
    assert(r@ =~= pick(values@, xs@));
    r
}

/// Gives the current block one parameter for each type and records their
/// values as the next variables.
fn define_params(
    fb: &mut FunctionBuilder<'_>,
    values: &mut Vec<u32>,
    block: u32,
    tys: &Vec<Ty>,
    Ghost(b): Ghost<Seq<u32>>,
    Ghost(vars): Ghost<Seq<Ty>>,
    Ghost(c): Ghost<Cursor>,
)
    requires
        in_step(summarize(built(old(fb))), old(values)@, b, vars, c),
        c.open,
        block == b[c.declared],
        summarize(built(old(fb))).status[block] == (BlockStatus::Pristine { params: 0 }),
        tys@.len() <= PARAMS_LIMIT,
        summarize(built(old(fb))).values + tys@.len() <= NUMBER_LIMIT,
    ensures
        final(values)@.len() == c.values + tys@.len(),
        final(values)@.subrange(0, c.values) == old(values)@,
        built(final(fb)) == built(old(fb)) + parameters(block, tys@, final(values)@, c.values),
        summarize(built(final(fb))).values == summarize(built(old(fb))).values + tys@.len(),
        forall|k: int|
            0 <= k < tys@.len() ==> (#[trigger] final(values)@[c.values + k]) == summarize(
                built(old(fb)),
            ).values + k,
        in_step(
            summarize(built(final(fb))),
            final(values)@,
            b,
            vars + tys@,
            Cursor { values: c.values + tys@.len(), ..c },
        ),
{
    let n = tys.len();
    let mut i: usize = 0;
    assert(built(fb) =~= built(old(fb)) + parameters(block, tys@.subrange(0, 0), values@, c.values));
    assert(values@.subrange(0, c.values) =~= old(values)@);
    assert(vars + tys@.subrange(0, 0) =~= vars);
    while i < n
        invariant
            n == tys@.len(),
            i <= n,
            c.open,
            old(values)@.len() == c.values,
            block == b[c.declared],
            summarize(built(fb)).status[block] == (BlockStatus::Pristine { params: i as nat }),
            n <= PARAMS_LIMIT,
            summarize(built(old(fb))).values + n <= NUMBER_LIMIT,
            values@.len() == c.values + i,
            values@.subrange(0, c.values) == old(values)@,
            summarize(built(fb)).values == summarize(built(old(fb))).values + i,
            forall|k: int|
                0 <= k < i ==> (#[trigger] values@[c.values + k]) == summarize(
                    built(old(fb)),
                ).values + k,
            built(fb) == built(old(fb)) + parameters(
                block,
                tys@.subrange(0, i as int),
                values@,
                c.values,
            ),
            in_step(
                summarize(built(fb)),
                values@,
                b,
                vars + tys@.subrange(0, i as int),
                Cursor { values: c.values + i, ..c },
            ),
        decreases n - i,
    {
        let ghost log = built(fb);
        let ghost before = values@;
        let ghost vars0 = vars + tys@.subrange(0, i as int);
        let ty = compile_valtype(tys[i]);
        let r = append_block_param(fb, block, ty);
        values.push(r);
        proof {
            lemma_summarize_push(log, param(block, ty, r));
            let s0 = summarize(log);
            let s1 = summarize(built(fb));
            assert forall|k: int| 0 <= k < i + 1 implies (#[trigger] values@[c.values + k])
                == summarize(built(old(fb))).values + k by {
                if k < i {
                    assert(values@[c.values + k] == before[c.values + k]);
                }
            }
            let vars1 = vars + tys@.subrange(0, i + 1);
            assert(vars1 =~= vars0.push(tys@[i as int]));
            assert forall|k: int| 0 <= k < values@.len() implies s1.types.dom().contains(
                #[trigger] values@[k],
            ) && s1.types[values@[k]] == native_type(vars1[k]) by {
                if k < before.len() {
                    assert(values@[k] == before[k]);
                    assert(s0.types.dom().contains(before[k]));
                    assert(vars1[k] == vars0[k]);
                }
            }
            assert forall|j: int| 0 <= j < b.len() implies s1.status.dom().contains(
                #[trigger] b[j],
            ) && block_state_ok(
                s1.status[b[j]],
                j,
                Cursor { values: c.values + i + 1, ..c },
            ) by {
                assert(s0.status.dom().contains(b[j]));
            }
            assert(values@.subrange(0, c.values) =~= old(values)@);
            let a = parameters(block, tys@.subrange(0, i as int), before, c.values);
            let z = parameters(block, tys@.subrange(0, i + 1), values@, c.values);
            assert(z =~= a.push(param(block, ty, r)));
            assert(built(fb) =~= built(old(fb)) + z);
        }
        i += 1;
    }
    proof {
        assert(tys@.subrange(0, n as int) =~= tys@);
    }
}

/// Appends the primitives of an instruction that computes values, each
/// applied to the instruction's operands, and records their values as the
/// next variables.
fn compute(
    fb: &mut FunctionBuilder<'_>,
    values: &mut Vec<u32>,
    ops: &Vec<NativeOp>,
    xs: &[VarId],
    Ghost(inst): Ghost<InstView>,
    Ghost(b): Ghost<Seq<u32>>,
    Ghost(vars): Ghost<Seq<Ty>>,
    Ghost(c): Ghost<Cursor>,
)
    requires
        in_step(summarize(built(old(fb))), old(values)@, b, vars, c),
        c.open,
        !(inst is Block),
        ops@ == natives(inst),
        xs@ == operands(inst),
        operands_typed(vars, operands(inst), operand_types(inst)),
        summarize(built(old(fb))).values + span(natives(inst), natives(inst).len() as int)
            <= NUMBER_LIMIT,
    ensures
        final(values)@.len() == c.values + natives(inst).len(),
        final(values)@.subrange(0, c.values) == old(values)@,
        built(final(fb)) == built(old(fb)) + computations(inst, final(values)@, c.values),
        summarize(built(final(fb))).values == summarize(built(old(fb))).values + span(
            natives(inst),
            natives(inst).len() as int,
        ),
        forall|k: int|
            0 <= k < natives(inst).len() ==> (#[trigger] final(values)@[c.values + k]) + 1
                == summarize(built(old(fb))).values + span(natives(inst), k + 1),
        in_step(
            summarize(built(final(fb))),
            final(values)@,
            b,
            vars + inst.defs(),
            Cursor { values: c.values + natives(inst).len(), ..c },
        ),
{
    let args = gather(values, xs);
    let n = ops.len();
    let mut i: usize = 0;
    proof {
        lemma_natives_total(inst);
        assert(values@.subrange(0, c.values) =~= old(values)@);
        assert(vars + inst.defs().subrange(0, 0) =~= vars);
        assert(built(fb) =~= built(old(fb)) + computations(inst, values@, c.values).subrange(0, 0));
    }
    while i < n
        invariant
            n == ops@.len(),
            n == inst.defs().len(),
            i <= n,
            c.open,
            !(inst is Block),
            ops@ == natives(inst),
            old(values)@.len() == c.values,
            vars.len() == c.values,
            args@ == pick(old(values)@, operands(inst)),
            operands_typed(vars, operands(inst), operand_types(inst)),
            values@.len() == c.values + i,
            values@.subrange(0, c.values) == old(values)@,
            summarize(built(old(fb))).values + span(natives(inst), n as int) <= NUMBER_LIMIT,
            summarize(built(fb)).values == summarize(built(old(fb))).values + span(
                natives(inst),
                i as int,
            ),
            forall|k: int|
                0 <= k < i ==> (#[trigger] values@[c.values + k]) + 1 == summarize(
                    built(old(fb)),
                ).values + span(natives(inst), k + 1),
            built(fb) == built(old(fb)) + Seq::new(
                i as nat,
                |k: int| applied(natives(inst)[k], args@, values@[c.values + k]),
            ),
            in_step(
                summarize(built(fb)),
                values@,
                b,
                vars + inst.defs().subrange(0, i as int),
                Cursor { values: c.values + i, ..c },
            ),
        decreases n - i,
    {
        let ghost log = built(fb);
        let ghost before = values@;
        let ghost vars0 = vars + inst.defs().subrange(0, i as int);
        let ghost s0 = summarize(log);
        proof {
            lemma_natives_total(inst);
            let xs_ = operands(inst);
            assert forall|j: int| 0 <= j < args@.len() implies s0.types.dom().contains(
                #[trigger] args@[j],
            ) && s0.types[args@[j]] == native_type(operand_types(inst)[j]) by {
                let x = xs_[j].0 as int;
                assert(xs_[j].0 < vars.len());
                assert(args@[j] == old(values)@[x]);
                assert(old(values)@[x] == values@.subrange(0, c.values)[x]);
                assert(values@[x] == args@[j]);
                assert(s0.types.dom().contains(values@[x]));
                assert(vars0[x] == vars[x]);
            }
            assert(s0.types_of(args@) =~= native_types(operand_types(inst)));
            assert(s0.status.dom().contains(b[c.declared]));
            lemma_span_grows(natives(inst), i + 1, n as int);
        }
        let r = emit(fb, ops[i], args.as_slice());
        values.push(r);
        proof {
            let e = applied(ops@[i as int], args@, r);
            lemma_summarize_push(log, e);
            let s1 = summarize(built(fb));
            assert(s1.values == s0.values + width(ops@[i as int]));
            assert(span(natives(inst), i + 1) == span(natives(inst), i as int) + width(
                natives(inst)[i as int],
            ));
            assert forall|k: int| 0 <= k < i + 1 implies (#[trigger] values@[c.values + k]) + 1
                == summarize(built(old(fb))).values + span(natives(inst), k + 1) by {
                if k < i {
                    assert(values@[c.values + k] == before[c.values + k]);
                }
            }
            let vars1 = vars + inst.defs().subrange(0, i + 1);
            assert(vars1 =~= vars0.push(inst.defs()[i as int]));
            assert forall|k: int| 0 <= k < values@.len() implies s1.types.dom().contains(
                #[trigger] values@[k],
            ) && s1.types[values@[k]] == native_type(vars1[k]) by {
                if k < before.len() {
                    assert(values@[k] == before[k]);
                    assert(s0.types.dom().contains(before[k]));
                    assert(vars1[k] == vars0[k]);
                }
            }
            assert forall|j: int| 0 <= j < b.len() implies s1.status.dom().contains(
                #[trigger] b[j],
            ) && block_state_ok(
                s1.status[b[j]],
                j,
                Cursor { values: c.values + i + 1, ..c },
            ) by {
                assert(s0.status.dom().contains(b[j]));
                if j != c.declared {
                    if j < c.declared {
                        assert(b[j] != b[c.declared]);
                    } else {
                        assert(b[c.declared] != b[j]);
                    }
                }
            }
            assert(values@.subrange(0, c.values) =~= old(values)@);
            let a = Seq::new(
                i as nat,
                |k: int| applied(natives(inst)[k], args@, before[c.values + k]),
            );
            let z = Seq::new(
                (i + 1) as nat,
                |k: int| applied(natives(inst)[k], args@, values@[c.values + k]),
            );
            assert(z =~= a.push(e));
            assert(built(fb) =~= built(old(fb)) + z);
        }
        i += 1;
    }
    proof {
        assert(inst.defs().subrange(0, n as int) =~= inst.defs());
        assert(pick(values@, operands(inst)) =~= args@) by {
            assert forall|j: int| 0 <= j < args@.len() implies pick(values@, operands(inst))[j]
                == args@[j] by {
                let x = operands(inst)[j].0 as int;
                assert(values@.subrange(0, c.values)[x] == values@[x]);
            }
        }
        assert(computations(inst, values@, c.values) =~= Seq::new(
            n as nat,
            |k: int| applied(natives(inst)[k], args@, values@[c.values + k]),
        ));
    }
}

/// A primitive whose value is new leaves the tables in agreement with the
/// builder.
proof fn lemma_after_op(
    s0: Summary,
    op: NativeOp,
    args: Seq<u32>,
    r: u32,
    v: Seq<u32>,
    b: Seq<u32>,
    vars: Seq<Ty>,
    c: Cursor,
)
    requires
        in_step(s0, v, b, vars, c),
        c.open,
        fresh(s0, applied(op, args, r)),
    ensures
        in_step(apply(s0, applied(op, args, r)), v, b, vars, c),
        apply(s0, applied(op, args, r)).types.dom().contains(r),
        forall|x: u32| s0.types.dom().contains(x) ==> apply(s0, applied(op, args, r)).types[x]
            == s0.types[x] && apply(s0, applied(op, args, r)).types.dom().contains(x),
{
    let s1 = apply(s0, applied(op, args, r));
    assert forall|k: int| 0 <= k < v.len() implies s1.types.dom().contains(#[trigger] v[k])
        && s1.types[v[k]] == native_type(vars[k]) by {
        assert(s0.types.dom().contains(v[k]));
    }
    assert forall|j: int| 0 <= j < b.len() implies s1.status.dom().contains(#[trigger] b[j])
        && block_state_ok(s1.status[b[j]], j, c) by {
        assert(s0.status.dom().contains(b[j]));
        if j < c.declared {
            assert(b[j] != b[c.declared]);
        } else if j > c.declared {
            assert(b[c.declared] != b[j]);
        }
    }
}

/// A jump, branch or return ends the open block and leaves the tables in
/// agreement with the builder.
proof fn lemma_after_terminator(
    s0: Summary,
    e: Emitted,
    v: Seq<u32>,
    b: Seq<u32>,
    vars: Seq<Ty>,
    c: Cursor,
)
    requires
        in_step(s0, v, b, vars, c),
        c.open,
        e is Jump || e is Brif || e is Return,
    ensures
        in_step(apply(s0, e), v, b, vars, Cursor { open: false, ..c }),
{
    let s1 = apply(s0, e);
    let c1 = Cursor { open: false, ..c };
    assert forall|k: int| 0 <= k < v.len() implies s1.types.dom().contains(#[trigger] v[k])
        && s1.types[v[k]] == native_type(vars[k]) by {
        assert(s0.types.dom().contains(v[k]));
    }
    assert forall|j: int| 0 <= j < b.len() implies s1.status.dom().contains(#[trigger] b[j])
        && block_state_ok(s1.status[b[j]], j, c1) by {
        assert(s0.status.dom().contains(b[j]));
        if j < c.declared {
            assert(b[j] != b[c.declared]);
        } else if j > c.declared {
            assert(b[c.declared] != b[j]);
        }
    }
}

/// The values that typed operands name are defined.
proof fn lemma_picked_defined(s: Summary, v: Seq<u32>, b: Seq<u32>, vars: Seq<Ty>, c: Cursor, xs: Seq<VarId>, tys: Seq<Ty>)
    requires
        in_step(s, v, b, vars, c),
        operands_typed(vars, xs, tys),
    ensures
        s.defines(pick(v, xs)),
        s.types_of(pick(v, xs)) == native_types(tys),
        forall|k: int| 0 <= k < xs.len() ==> (#[trigger] xs[k]).0 < v.len(),
{
    assert forall|k: int| 0 <= k < xs.len() implies s.types.dom().contains(
        #[trigger] pick(v, xs)[k],
    ) && s.types[pick(v, xs)[k]] == native_type(tys[k]) by {
        let x = xs[k].0 as int;
        assert(xs[k].0 < vars.len());
        assert(s.types.dom().contains(v[x]));
    }
    assert(s.types_of(pick(v, xs)) =~= native_types(tys));
}

/// The tables of a lowering in progress.
pub struct Lowering {
    /// The number that the builder gave to each value, by value index.
    pub values: Vec<u32>,
    /// The number that the builder gave to each block, by block index.
    pub blocks: Vec<u32>,
    /// The numbers of the temporaries made for fused branch conditions.
    pub temps: Vec<u32>,
    /// The number of blocks that the stream has declared, the entry among
    /// them.
    pub declared: usize,
    /// Whether the current block is open.
    pub open: bool,
}

impl Lowering {
    /// How far the lowering has come.
    pub open spec fn cursor(self) -> Cursor {
        Cursor {
            values: self.values@.len() as int,
            created: self.blocks@.len() as int,
            temps: self.temps@.len() as int,
            declared: self.declared as int,
            open: self.open,
        }
    }

    /// Whether the tables of `self` begin with those of `before`.
    pub open spec fn extends(self, before: Lowering) -> bool {
        &&& before.values@.len() <= self.values@.len()
        &&& self.values@.subrange(0, before.values@.len() as int) == before.values@
        &&& before.blocks@.len() <= self.blocks@.len()
        &&& self.blocks@.subrange(0, before.blocks@.len() as int) == before.blocks@
        &&& before.temps@.len() <= self.temps@.len()
        &&& self.temps@.subrange(0, before.temps@.len() as int) == before.temps@
    }
}

/// Ends the open block with a jump to block `target`.
fn lower_jump(
    fb: &mut FunctionBuilder<'_>,
    st: &mut Lowering,
    target: usize,
    xs: &Vec<VarId>,
    Ghost(vars): Ghost<Seq<Ty>>,
    Ghost(tys): Ghost<Seq<Ty>>,
)
    requires
        in_step(summarize(built(old(fb))), old(st).values@, old(st).blocks@, vars, old(st).cursor()),
        old(st).open,
        target < 0x1_0000,
        operands_typed(vars, xs@, tys),
        summarize(built(old(fb))).values <= NUMBER_LIMIT,
    ensures
        final(st).extends(*old(st)),
        final(st).values == old(st).values,
        final(st).temps == old(st).temps,
        final(st).declared == old(st).declared,
        !final(st).open,
        final(st).blocks@.len() == larger(old(st).blocks@.len() as int, target + 2),
        summarize(built(final(fb))).values == summarize(built(old(fb))).values,
        built(final(fb)) == built(old(fb)) + creations(
            final(st).blocks@,
            old(st).blocks@.len() as int,
            target + 2,
        ) + seq![jumped(block_at(final(st).blocks@, target as int), pick(final(st).values@, xs@))],
        in_step(
            summarize(built(final(fb))),
            final(st).values@,
            final(st).blocks@,
            vars,
            final(st).cursor(),
        ),
{
    let ghost c = st.cursor();
    ensure_block(fb, &mut st.blocks, target + 1, Ghost(st.values@), Ghost(vars), Ghost(c));
    let ghost c1 = st.cursor();
    let ghost log = built(fb);
    proof {
        lemma_picked_defined(summarize(log), st.values@, st.blocks@, vars, c1, xs@, tys);
        assert(summarize(log).status.dom().contains(st.blocks@[c1.declared]));
        assert(summarize(log).status.dom().contains(st.blocks@[target + 1]));
        assert(st.values@.subrange(0, st.values@.len() as int) =~= st.values@);
        assert(st.temps@.subrange(0, st.temps@.len() as int) =~= st.temps@);
    }
    let args = gather(&st.values, xs.as_slice());
    emit_jump(fb, st.blocks[target + 1], &args);
    st.open = false;
    proof {
        let e = jumped(st.blocks@[target + 1], args@);
        lemma_summarize_push(log, e);
        lemma_after_terminator(summarize(log), e, st.values@, st.blocks@, vars, c1);
        assert(built(fb) =~= built(old(fb)) + creations(
            st.blocks@,
            old(st).blocks@.len() as int,
            target + 2,
        ) + seq![e]);
    }
}

/// Ends the open block with a return.
fn lower_return(
    fb: &mut FunctionBuilder<'_>,
    st: &mut Lowering,
    xs: &Vec<VarId>,
    Ghost(vars): Ghost<Seq<Ty>>,
    Ghost(tys): Ghost<Seq<Ty>>,
)
    requires
        in_step(summarize(built(old(fb))), old(st).values@, old(st).blocks@, vars, old(st).cursor()),
        old(st).open,
        operands_typed(vars, xs@, tys),
    ensures
        final(st).extends(*old(st)),
        final(st).values == old(st).values,
        final(st).blocks == old(st).blocks,
        final(st).temps == old(st).temps,
        final(st).declared == old(st).declared,
        !final(st).open,
        summarize(built(final(fb))).values == summarize(built(old(fb))).values,
        built(final(fb)) == built(old(fb)) + seq![returned(pick(final(st).values@, xs@))],
        in_step(
            summarize(built(final(fb))),
            final(st).values@,
            final(st).blocks@,
            vars,
            final(st).cursor(),
        ),
{
    let ghost c = st.cursor();
    let ghost log = built(fb);
    proof {
        lemma_picked_defined(summarize(log), st.values@, st.blocks@, vars, c, xs@, tys);
        assert(summarize(log).status.dom().contains(st.blocks@[c.declared]));
        assert(st.values@.subrange(0, st.values@.len() as int) =~= st.values@);
        assert(st.blocks@.subrange(0, st.blocks@.len() as int) =~= st.blocks@);
        assert(st.temps@.subrange(0, st.temps@.len() as int) =~= st.temps@);
    }
    let args = gather(&st.values, xs.as_slice());
    emit_return(fb, &args);
    st.open = false;
    proof {
        let e = returned(args@);
        lemma_summarize_push(log, e);
        lemma_after_terminator(summarize(log), e, st.values@, st.blocks@, vars, c);
        assert(built(fb) =~= built(old(fb)) + seq![e]);
    }
}

/// Computes a fused branch condition into a temporary, or looks up the
/// value of a condition that is a variable.
fn lower_cond(
    fb: &mut FunctionBuilder<'_>,
    st: &mut Lowering,
    cond: Cond,
    Ghost(vars): Ghost<Seq<Ty>>,
) -> (r: u32)
    requires
        in_step(summarize(built(old(fb))), old(st).values@, old(st).blocks@, vars, old(st).cursor()),
        old(st).open,
        operands_typed(vars, cond_uses(cond), cond_inputs(cond)),
        summarize(built(old(fb))).values + cond_cost(cond) <= NUMBER_LIMIT,
    ensures
        final(st).extends(*old(st)),
        final(st).values == old(st).values,
        final(st).blocks == old(st).blocks,
        final(st).declared == old(st).declared,
        final(st).open,
        cond is Var ==> final(st).temps == old(st).temps,
        !(cond is Var) ==> final(st).temps@ == old(st).temps@.push(r),
        r == cond_value(cond, final(st).values@, r),
        built(final(fb)) == built(old(fb)) + cond_events(cond, final(st).values@, r),
        summarize(built(final(fb))).values == summarize(built(old(fb))).values + cond_cost(cond),
        !(cond is Var) ==> r + 1 == summarize(built(old(fb))).values + cond_cost(cond),
        summarize(built(final(fb))).types.dom().contains(r),
        in_step(
            summarize(built(final(fb))),
            final(st).values@,
            final(st).blocks@,
            vars,
            final(st).cursor(),
        ),
{
    let ghost c = st.cursor();
    let ghost log = built(fb);
    let ghost s0 = summarize(log);
    proof {
        lemma_picked_defined(s0, st.values@, st.blocks@, vars, c, cond_uses(cond), cond_inputs(cond));
        assert(s0.status.dom().contains(st.blocks@[c.declared]));
        assert(st.values@.subrange(0, st.values@.len() as int) =~= st.values@);
        assert(st.blocks@.subrange(0, st.blocks@.len() as int) =~= st.blocks@);
        assert(st.temps@.subrange(0, st.temps@.len() as int) =~= st.temps@);
    }
    match cond {
        Cond::Var(x) => {
            assert(cond_uses(cond)[0] == x);
            assert(pick(st.values@, cond_uses(cond))[0] == st.values@[x.0 as int]);
            assert(built(fb) =~= built(old(fb)) + cond_events(cond, st.values@, st.values@[x.0 as int]));
            st.values[x.0 as usize]
        },
        Cond::Op11(op, x) => {
            assert(cond_uses(cond)[0] == x);
            let args = [st.values[x.0 as usize]];
            let native = lower_op11(op);
            proof {
                assert(args@ =~= pick(st.values@, cond_uses(cond)));
                assert(args@ =~= seq![st.values@[x.0 as int]]);
                lemma_natives_total(InstView::Op11(op, x));
                assert(natives(InstView::Op11(op, x))[0] == native);
            }
            let r = emit(fb, native, args.as_slice());
            st.temps.push(r);
            proof {
                lemma_summarize_push(log, applied(native, args@, r));
                lemma_after_op(s0, native, args@, r, st.values@, st.blocks@, vars, c);
                assert(st.temps@.subrange(0, old(st).temps@.len() as int) =~= old(st).temps@);
                assert(cond_events(cond, st.values@, r) =~= seq![applied(native, args@, r)]);
                assert(built(fb) =~= built(old(fb)) + cond_events(cond, st.values@, r));
            }
            r
        },
        Cond::Op21(op, x, y) => {
            assert(cond_uses(cond)[0] == x);
            assert(cond_uses(cond)[1] == y);
            let args = [st.values[x.0 as usize], st.values[y.0 as usize]];
            let ops = lower_op21(op);
            proof {
                assert(args@ =~= pick(st.values@, cond_uses(cond)));
                assert(args@ =~= seq![st.values@[x.0 as int], st.values@[y.0 as int]]);
                lemma_natives_total(InstView::Op21(op, x, y));
                crate::ir_op::lemma_op21_table(op);
                assert(natives(InstView::Op21(op, x, y))[0] == ops@[0]);
            }
            let native = ops[0];
            let r = emit(fb, native, args.as_slice());
            st.temps.push(r);
            proof {
                lemma_summarize_push(log, applied(native, args@, r));
                lemma_after_op(s0, native, args@, r, st.values@, st.blocks@, vars, c);
                assert(st.temps@.subrange(0, old(st).temps@.len() as int) =~= old(st).temps@);
                assert(cond_events(cond, st.values@, r) =~= seq![applied(native, args@, r)]);
                assert(built(fb) =~= built(old(fb)) + cond_events(cond, st.values@, r));
            }
            r
        },
    }
}

/// Ends the open block with a two-way branch.
#[verifier::rlimit(40)]
fn lower_branch(
    fb: &mut FunctionBuilder<'_>,
    st: &mut Lowering,
    cond: Cond,
    then_target: usize,
    txs: &Vec<VarId>,
    else_target: usize,
    exs: &Vec<VarId>,
    Ghost(vars): Ghost<Seq<Ty>>,
    Ghost(ttys): Ghost<Seq<Ty>>,
    Ghost(etys): Ghost<Seq<Ty>>,
)
    requires
        in_step(summarize(built(old(fb))), old(st).values@, old(st).blocks@, vars, old(st).cursor()),
        old(st).open,
        then_target < 0x1_0000,
        else_target < 0x1_0000,
        operands_typed(vars, cond_uses(cond), cond_inputs(cond)),
        operands_typed(vars, txs@, ttys),
        operands_typed(vars, exs@, etys),
        summarize(built(old(fb))).values + cond_cost(cond) <= NUMBER_LIMIT,
    ensures
        final(st).extends(*old(st)),
        final(st).values == old(st).values,
        final(st).declared == old(st).declared,
        !final(st).open,
        final(st).blocks@.len() == larger(
            old(st).blocks@.len() as int,
            larger(then_target as int, else_target as int) + 2,
        ),
        final(st).temps@.len() == old(st).temps@.len() + (if cond is Var {
            0int
        } else {
            1int
        }),
        summarize(built(final(fb))).values == summarize(built(old(fb))).values + cond_cost(cond),
        !(cond is Var) ==> final(st).temps@[old(st).temps@.len() as int] + 1 == summarize(
            built(old(fb)),
        ).values + cond_cost(cond),
        built(final(fb)) == built(old(fb)) + creations(
            final(st).blocks@,
            old(st).blocks@.len() as int,
            larger(then_target as int, else_target as int) + 2,
        ) + cond_events(cond, final(st).values@, final(st).temps@[old(st).temps@.len() as int])
            + seq![
            branched(
                cond_value(
                    cond,
                    final(st).values@,
                    final(st).temps@[old(st).temps@.len() as int],
                ),
                block_at(final(st).blocks@, then_target as int),
                pick(final(st).values@, txs@),
                block_at(final(st).blocks@, else_target as int),
                pick(final(st).values@, exs@),
            ),
        ],
        in_step(
            summarize(built(final(fb))),
            final(st).values@,
            final(st).blocks@,
            vars,
            final(st).cursor(),
        ),
{
    let ghost c = st.cursor();
    let last = max(then_target, else_target);
    ensure_block(fb, &mut st.blocks, last + 1, Ghost(st.values@), Ghost(vars), Ghost(c));
    let ghost log1 = built(fb);
    let c_value = lower_cond(fb, st, cond, Ghost(vars));
    let ghost c2 = st.cursor();
    let ghost log2 = built(fb);
    proof {
        let s2 = summarize(log2);
        lemma_picked_defined(s2, st.values@, st.blocks@, vars, c2, txs@, ttys);
        lemma_picked_defined(s2, st.values@, st.blocks@, vars, c2, exs@, etys);
        assert(s2.status.dom().contains(st.blocks@[c2.declared]));
        assert(s2.status.dom().contains(st.blocks@[then_target + 1]));
        assert(s2.status.dom().contains(st.blocks@[else_target + 1]));
    }
    let targs = gather(&st.values, txs.as_slice());
    let eargs = gather(&st.values, exs.as_slice());
    emit_brif(fb, c_value, st.blocks[then_target + 1], &targs, st.blocks[else_target + 1], &eargs);
    st.open = false;
    proof {
        let e = branched(
            c_value,
            st.blocks@[then_target + 1],
            targs@,
            st.blocks@[else_target + 1],
            eargs@,
        );
        lemma_summarize_push(log2, e);
        lemma_after_terminator(summarize(log2), e, st.values@, st.blocks@, vars, c2);
        let t = st.temps@[old(st).temps@.len() as int];
        if !(cond is Var) {
            assert(t == c_value);
        }
        assert(cond_events(cond, st.values@, t) == cond_events(cond, st.values@, c_value));
        assert(cond_value(cond, st.values@, t) == c_value);
        assert(st.blocks@.subrange(0, old(st).blocks@.len() as int) =~= old(st).blocks@);
        assert(st.temps@.subrange(0, old(st).temps@.len() as int) =~= old(st).temps@);
        lemma_pushed_after(
            built(old(fb)),
            creations(
                st.blocks@,
                old(st).blocks@.len() as int,
                larger(then_target as int, else_target as int) + 2,
            ),
            cond_events(cond, st.values@, t),
            e,
        );
    }
}

/// One more thing after three runs of things is the runs followed by it.
proof fn lemma_pushed_after(a: Seq<Emitted>, b: Seq<Emitted>, c: Seq<Emitted>, e: Emitted)
    ensures
        (a + b + c).push(e) == a + b + c + seq![e],
{
    assert((a + b + c).push(e) =~= a + b + c + seq![e]);
}

/// Opens the block that the stream declares next: leaves an open block by a
/// jump without arguments, moves to the declared block and gives it its
/// parameters.
fn lower_block(
    fb: &mut FunctionBuilder<'_>,
    st: &mut Lowering,
    tys: &Vec<Ty>,
    Ghost(vars): Ghost<Seq<Ty>>,
)
    requires
        in_step(summarize(built(old(fb))), old(st).values@, old(st).blocks@, vars, old(st).cursor()),
        old(st).declared + 1 < NUMBER_LIMIT,
        old(st).open ==> tys@.len() == 0,
        tys@.len() <= PARAMS_LIMIT,
        summarize(built(old(fb))).values + tys@.len() <= NUMBER_LIMIT,
    ensures
        final(st).extends(*old(st)),
        final(st).cursor() == advance(old(st).cursor(), InstView::Block(tys@)),
        summarize(built(final(fb))).values == summarize(built(old(fb))).values + tys@.len(),
        forall|k: int|
            0 <= k < tys@.len() ==> (#[trigger] final(st).values@[old(st).values@.len() + k])
                == summarize(built(old(fb))).values + k,
        built(final(fb)) == built(old(fb)) + inst_events(
            InstView::Block(tys@),
            old(st).cursor(),
            final(st).values@,
            final(st).blocks@,
            final(st).temps@,
        ),
        in_step(
            summarize(built(final(fb))),
            final(st).values@,
            final(st).blocks@,
            vars + tys@,
            final(st).cursor(),
        ),
{
    let ghost c = st.cursor();
    let id = st.declared + 1;
    ensure_block(fb, &mut st.blocks, id, Ghost(st.values@), Ghost(vars), Ghost(c));
    let ghost c1 = st.cursor();
    let ghost log1 = built(fb);
    let block = st.blocks[id];
    let ghost leave: Seq<Emitted> = if c.open {
        seq![jumped(block, Seq::<u32>::empty())]
    } else {
        Seq::<Emitted>::empty()
    };
    if st.open {
        let none: Vec<u32> = Vec::new();
        proof {
            let s1 = summarize(log1);
            assert(s1.status.dom().contains(st.blocks@[c1.declared]));
            assert(s1.status.dom().contains(st.blocks@[id as int]));
            assert(none@ =~= Seq::<u32>::empty());
        }
        emit_jump(fb, block, &none);
        st.open = false;
        proof {
            let e = jumped(block, none@);
            lemma_summarize_push(log1, e);
            lemma_after_terminator(summarize(log1), e, st.values@, st.blocks@, vars, c1);
        }
    }
    let ghost c2 = st.cursor();
    let ghost log2 = built(fb);
    assert(log2 =~= log1 + leave);
    proof {
        let s2 = summarize(log2);
        assert(s2.status.dom().contains(st.blocks@[c2.declared]));
        assert(s2.status.dom().contains(st.blocks@[id as int]));
        assert(block_state_ok(s2.status[st.blocks@[id as int]], id as int, c2));
        assert(block_state_ok(s2.status[st.blocks@[c2.declared]], c2.declared, c2));
    }
    switch_to_block(fb, block);
    st.declared = id;
    st.open = true;
    let ghost c3 = st.cursor();
    let ghost log3 = built(fb);
    proof {
        let s2 = summarize(log2);
        let s3 = summarize(log3);
        lemma_summarize_push(log2, switched(block));
        assert forall|k: int| 0 <= k < st.values@.len() implies s3.types.dom().contains(
            #[trigger] st.values@[k],
        ) && s3.types[st.values@[k]] == native_type(vars[k]) by {
            assert(s2.types.dom().contains(st.values@[k]));
        }
        assert forall|j: int| 0 <= j < st.blocks@.len() implies s3.status.dom().contains(
            #[trigger] st.blocks@[j],
        ) && block_state_ok(s3.status[st.blocks@[j]], j, c3) by {
            assert(s2.status.dom().contains(st.blocks@[j]));
            assert(block_state_ok(s2.status[st.blocks@[j]], j, c2));
        }
        assert(in_step(s3, st.values@, st.blocks@, vars, c3));
    }
    define_params(fb, &mut st.values, block, tys, Ghost(st.blocks@), Ghost(vars), Ghost(c3));
    proof {
        assert(st.blocks@.subrange(0, old(st).blocks@.len() as int) =~= old(st).blocks@);
        assert(st.temps@.subrange(0, st.temps@.len() as int) =~= st.temps@);
        assert(built(fb) =~= built(old(fb)) + inst_events(
            InstView::Block(tys@),
            c,
            st.values@,
            st.blocks@,
            st.temps@,
        )) by {
            let cr = creations(st.blocks@, c.created, c.declared + 2);
            let ps = parameters(block, tys@, st.values@, c.values);
            assert(log1 == built(old(fb)) + cr);
            assert(log3 == log2.push(switched(block)));
            assert(built(fb) == log3 + ps);
            assert(built(fb) =~= built(old(fb)) + cr + leave + seq![switched(block)] + ps);
        }
    }
}

/// Lowers one instruction.
///
/// The value table grows by exactly the values that the instruction
/// defines: one for an immediate, one or two for an operation, one for each
/// parameter of a block, none for a jump, a branch or a return.
#[verifier::rlimit(40)]
fn lower_inst(
    fb: &mut FunctionBuilder<'_>,
    st: &mut Lowering,
    inst: &Inst,
    Ghost(decl): Ghost<Seq<Seq<Ty>>>,
    Ghost(outputs): Ghost<Seq<Ty>>,
    Ghost(vars): Ghost<Seq<Ty>>,
)
    requires
        in_step(summarize(built(old(fb))), old(st).values@, old(st).blocks@, vars, old(st).cursor()),
        step(
            decl,
            outputs,
            Scope { vars, open: old(st).open, blocks: old(st).declared as int },
            inst@,
        ) is Ok,
        old(st).declared + 1 < NUMBER_LIMIT,
        summarize(built(old(fb))).values + cost(inst@) <= NUMBER_LIMIT,
        inst@ matches InstView::Block(tys) ==> tys.len() <= PARAMS_LIMIT,
    ensures
        final(st).extends(*old(st)),
        final(st).cursor() == advance(old(st).cursor(), inst@),
        final(st).values@.len() == old(st).values@.len() + inst@.defs().len(),
        final(st).values@ == old(st).values@ + new_values(
            inst@,
            summarize(built(old(fb))).values as int,
        ),
        final(st).temps@ == old(st).temps@ + new_temps(
            inst@,
            summarize(built(old(fb))).values as int,
        ),
        summarize(built(final(fb))).values == summarize(built(old(fb))).values + cost(inst@),
        built(final(fb)) == built(old(fb)) + inst_events(
            inst@,
            old(st).cursor(),
            final(st).values@,
            final(st).blocks@,
            final(st).temps@,
        ),
        in_step(
            summarize(built(final(fb))),
            final(st).values@,
            final(st).blocks@,
            step(
                decl,
                outputs,
                Scope { vars, open: old(st).open, blocks: old(st).declared as int },
                inst@,
            ).unwrap().vars,
            final(st).cursor(),
        ),
{
    let ghost c = st.cursor();
    proof {
        assert(st.values@.subrange(0, st.values@.len() as int) =~= st.values@);
        assert(st.blocks@.subrange(0, st.blocks@.len() as int) =~= st.blocks@);
        assert(st.temps@.subrange(0, st.temps@.len() as int) =~= st.temps@);
        if !(inst@ is Block) {
            lemma_natives_total(inst@);
        }
    }
    match inst {
        Inst::Block(tys) => {
            lower_block(fb, st, tys, Ghost(vars));
        },
        Inst::Goto(t, xs) => {
            proof {
                lemma_args_typed(vars, xs@, decl[t.0 as int]);
            }
            lower_jump(fb, st, t.0 as usize, xs, Ghost(vars), Ghost(decl[t.0 as int]));
        },
        Inst::If(cond, t, txs, e, exs) => {
            proof {
                lemma_cond_typed(vars, *cond);
                lemma_args_typed(vars, txs@, decl[t.0 as int]);
                lemma_args_typed(vars, exs@, decl[e.0 as int]);
            }
            lower_branch(
                fb,
                st,
                *cond,
                t.0 as usize,
                txs,
                e.0 as usize,
                exs,
                Ghost(vars),
                Ghost(decl[t.0 as int]),
                Ghost(decl[e.0 as int]),
            );
        },
        Inst::ImmBool(v) => {
            let mut ops: Vec<NativeOp> = Vec::new();
            ops.push(
                NativeOp::Iconst(
                    NativeTy::I8,
                    if *v {
                        1
                    } else {
                        0
                    },
                ),
            );
            let xs: [VarId; 0] = [];
            assert(ops@ =~= natives(inst@));
            assert(xs@ =~= operands(inst@));
            compute(fb, &mut st.values, &ops, xs.as_slice(), Ghost(inst@), Ghost(st.blocks@), Ghost(vars), Ghost(c));
        },
        Inst::ImmI6(v) => {
            let mut ops: Vec<NativeOp> = Vec::new();
            ops.push(NativeOp::Iconst(NativeTy::I8, v.value() as i64));
            let xs: [VarId; 0] = [];
            assert(ops@ =~= natives(inst@));
            assert(xs@ =~= operands(inst@));
            compute(fb, &mut st.values, &ops, xs.as_slice(), Ghost(inst@), Ghost(st.blocks@), Ghost(vars), Ghost(c));
        },
        Inst::ImmI64(v) => {
            let mut ops: Vec<NativeOp> = Vec::new();
            ops.push(NativeOp::Iconst(NativeTy::I64, *v as i64));
            let xs: [VarId; 0] = [];
            assert(ops@ =~= natives(inst@));
            assert(xs@ =~= operands(inst@));
            compute(fb, &mut st.values, &ops, xs.as_slice(), Ghost(inst@), Ghost(st.blocks@), Ghost(vars), Ghost(c));
        },
        Inst::Op11(op, x) => {
            let mut ops: Vec<NativeOp> = Vec::new();
            ops.push(lower_op11(*op));
            let xs = [*x];
            proof {
                assert(ops@ =~= natives(inst@));
                assert(xs@ =~= operands(inst@));
                crate::ir_op::lemma_op11_table(*op);
                lemma_operands_from(vars, seq![*x], op.spec_inputs(), 0);
            }
            compute(fb, &mut st.values, &ops, xs.as_slice(), Ghost(inst@), Ghost(st.blocks@), Ghost(vars), Ghost(c));
        },
        Inst::Op21(op, x, y) => {
            let ops = lower_op21(*op);
            let xs = [*x, *y];
            proof {
                assert(xs@ =~= operands(inst@));
                crate::ir_op::lemma_op21_table(*op);
                lemma_operands_from(vars, seq![*x, *y], op.spec_inputs(), 0);
            }
            compute(fb, &mut st.values, &ops, xs.as_slice(), Ghost(inst@), Ghost(st.blocks@), Ghost(vars), Ghost(c));
        },
        Inst::Op31(op, x, y, z) => {
            let mut ops: Vec<NativeOp> = Vec::new();
            ops.push(lower_op31(*op));
            let xs = [*x, *y, *z];
            proof {
                assert(ops@ =~= natives(inst@));
                assert(xs@ =~= operands(inst@));
                crate::ir_op::lemma_op31_table(*op);
                lemma_operands_from(vars, seq![*x, *y, *z], op.spec_inputs(), 0);
            }
            compute(fb, &mut st.values, &ops, xs.as_slice(), Ghost(inst@), Ghost(st.blocks@), Ghost(vars), Ghost(c));
        },
        Inst::Ret(xs) => {
            proof {
                lemma_args_typed(vars, xs@, outputs);
            }
            lower_return(fb, st, xs, Ghost(vars), Ghost(outputs));
        },
    }
    proof {
        let m = summarize(built(old(fb))).values as int;
        let ov = old(st).values@;
        let ot = old(st).temps@;
        let nv = new_values(inst@, m);
        let nt = new_temps(inst@, m);
        assert(st.values@.len() == ov.len() + nv.len());
        assert forall|i: int| 0 <= i < st.values@.len() implies st.values@[i] == (ov + nv)[i] by {
            if i < ov.len() {
                assert(st.values@.subrange(0, ov.len() as int)[i] == st.values@[i]);
            } else {
                let k = i - ov.len();
                assert(st.values@[ov.len() + k] == st.values@[i]);
            }
        }
        assert(st.values@ =~= ov + nv);
        assert(st.temps@.len() == ot.len() + nt.len());
        assert forall|i: int| 0 <= i < st.temps@.len() implies st.temps@[i] == (ot + nt)[i] by {
            if i < ot.len() {
                assert(st.temps@.subrange(0, ot.len() as int)[i] == st.temps@[i]);
            }
        }
        assert(st.temps@ =~= ot + nt);
    }
}

/// Enters a function: makes the native entry with one parameter for each
/// input, and block 0, which the entry jumps to with its parameters and
/// whose own parameters are the function's inputs as the stream sees them.
fn open_entry(fb: &mut FunctionBuilder<'_>, inputs: &Vec<Ty>) -> (st: Lowering)
    requires
        built(old(fb)) == Seq::<Emitted>::empty(),
        inputs@.len() <= PARAMS_LIMIT,
    ensures
        st.cursor() == entered(inputs@),
        built(final(fb)) == entry_events(inputs@, st.values@, st.blocks@, st.temps@),
        in_step(summarize(built(final(fb))), st.values@, st.blocks@, inputs@, st.cursor()),
        summarize(built(final(fb))).values == 2 * inputs@.len(),
        st.temps@ == Seq::new(inputs@.len(), |k: int| k as u32),
        st.values@ == Seq::new(inputs@.len(), |k: int| (inputs@.len() + k) as u32),
{
    let ghost log0 = built(fb);
    let entry = create_block(fb);
    let ghost log1 = built(fb);
    proof {
        lemma_summarize_push(log0, created(entry));
    }
    switch_to_block(fb, entry);
    let ghost log2 = built(fb);
    // The parameters of the native entry are kept among the temporaries.
    let mut st = Lowering {
        values: Vec::new(),
        blocks: Vec::new(),
        temps: Vec::new(),
        declared: 0,
        open: true,
    };
    st.blocks.push(entry);
    let ghost c0 = Cursor { values: 0, created: 1, temps: 0, declared: 0, open: true };
    proof {
        lemma_summarize_push(log1, switched(entry));
        let s2 = summarize(log2);
        assert(s2.status.dom() =~= set![entry]);
        assert(st.blocks@[0] == entry);
        assert forall|x: u32| #[trigger] s2.status.dom().contains(x) implies st.blocks@.contains(
            x,
        ) by {
            assert(st.blocks@[0] == x);
        }
        assert(entry_ready(s2, st.temps@, st.blocks@, Seq::<Ty>::empty()));
    }
    let n = inputs.len();
    let mut i: usize = 0;
    assert(parameters(entry, inputs@.subrange(0, 0), st.temps@, 0) =~= Seq::<Emitted>::empty());
    while i < n
        invariant
            n == inputs@.len(),
            i <= n,
            st.blocks@ == seq![entry],
            st.values@.len() == 0,
            st.temps@.len() == i,
            st.declared == 0,
            st.open,
            n <= PARAMS_LIMIT,
            built(fb) == log2 + parameters(entry, inputs@.subrange(0, i as int), st.temps@, 0),
            entry_ready(summarize(built(fb)), st.temps@, st.blocks@, inputs@.subrange(0, i as int)),
        decreases n - i,
    {
        let ghost log = built(fb);
        let ghost before = st.temps@;
        let ty = compile_valtype(inputs[i]);
        let r = append_block_param(fb, entry, ty);
        st.temps.push(r);
        proof {
            lemma_summarize_push(log, param(entry, ty, r));
            let s0 = summarize(log);
            let s1 = summarize(built(fb));
            let tys0 = inputs@.subrange(0, i as int);
            let tys1 = inputs@.subrange(0, i + 1);
            assert(tys1 =~= tys0.push(inputs@[i as int]));
            assert forall|k: int| 0 <= k < st.temps@.len() implies s1.types.dom().contains(
                #[trigger] st.temps@[k],
            ) && s1.types[st.temps@[k]] == native_type(tys1[k]) by {
                if k < before.len() {
                    assert(st.temps@[k] == before[k]);
                    assert(s0.types.dom().contains(before[k]));
                    assert(tys1[k] == tys0[k]);
                }
            }
            assert forall|k: int| 0 <= k < st.temps@.len() implies #[trigger] st.temps@[k]
                == k by {
                if k < before.len() {
                    assert(st.temps@[k] == before[k]);
                }
            }
            let a = parameters(entry, tys0, before, 0);
            let z = parameters(entry, tys1, st.temps@, 0);
            assert(z =~= a.push(param(entry, ty, r)));
            assert(built(fb) =~= log2 + z);
        }
        i += 1;
    }
    assert(inputs@.subrange(0, n as int) =~= inputs@);
    let ghost log3 = built(fb);
    let first = create_block(fb);
    st.blocks.push(first);
    let ghost log4 = built(fb);
    proof {
        lemma_summarize_push(log3, created(first));
        let s3 = summarize(log3);
        assert(s3.status.dom().contains(entry));
        let s4 = summarize(log4);
        assert(s4.defines(st.temps@)) by {
            assert forall|k: int| 0 <= k < st.temps@.len() implies s4.types.dom().contains(
                #[trigger] st.temps@[k],
            ) by {
                assert(s3.types.dom().contains(st.temps@[k]));
            }
        }
    }
    emit_jump(fb, first, &st.temps);
    let ghost log5 = built(fb);
    proof {
        lemma_summarize_push(log4, jumped(first, st.temps@));
    }
    switch_to_block(fb, first);
    st.declared = 1;
    let ghost log6 = built(fb);
    let ghost c = st.cursor();
    proof {
        lemma_summarize_push(log5, switched(first));
        let s6 = summarize(log6);
        assert(s6.status.dom() =~= set![entry, first]);
        assert(st.blocks@[0] == entry);
        assert(st.blocks@[1] == first);
        assert forall|x: u32| #[trigger] s6.status.dom().contains(x) implies st.blocks@.contains(
            x,
        ) by {
            if x == entry {
                assert(st.blocks@[0] == x);
            } else {
                assert(st.blocks@[1] == x);
            }
        }
        assert(in_step(s6, st.values@, st.blocks@, Seq::<Ty>::empty(), c));
    }
    define_params(
        fb,
        &mut st.values,
        first,
        inputs,
        Ghost(st.blocks@),
        Ghost(Seq::<Ty>::empty()),
        Ghost(c),
    );
    proof {
        assert(Seq::<Ty>::empty() + inputs@ =~= inputs@);
        assert(st.temps@.subrange(0, inputs@.len() as int) =~= st.temps@);
        assert(log6 =~= seq![created(entry), switched(entry)] + parameters(
            entry,
            inputs@,
            st.temps@,
            0,
        ) + seq![created(first), jumped(first, st.temps@), switched(first)]);
        assert(st.temps@ =~= Seq::new(inputs@.len(), |k: int| k as u32));
        assert forall|k: int| 0 <= k < inputs@.len() implies st.values@[k] == (inputs@.len()
            + k) as u32 by {
            assert(st.values@[0 + k] == inputs@.len() + k);
        }
        assert(st.values@ =~= Seq::new(inputs@.len(), |k: int| (inputs@.len() + k) as u32));
    }
    st
}

/// Whether the native entry is being given its parameters: it is the only
/// block, the builder is at it, nothing else has been appended to it, and
/// each parameter made so far is a defined value of the native type of its
/// input and is numbered by its place.
spec fn entry_ready(s: Summary, t: Seq<u32>, b: Seq<u32>, tys: Seq<Ty>) -> bool {
    &&& b.len() == 1
    &&& t.len() == tys.len()
    &&& s.current == Some(b[0])
    &&& s.status.dom().contains(b[0])
    &&& s.status[b[0]] == (BlockStatus::Pristine { params: t.len() })
    &&& forall|x: u32| #[trigger] s.status.dom().contains(x) ==> x == b[0]
    &&& forall|k: int|
        0 <= k < t.len() ==> s.types.dom().contains(#[trigger] t[k]) && s.types[t[k]]
            == native_type(tys[k])
    &&& s.sealed == Set::<u32>::empty()
    &&& b[0] == 0
    &&& s.blocks == 1
    &&& s.values == t.len()
    &&& forall|k: int| 0 <= k < t.len() ==> #[trigger] t[k] == k
}

/// Lowers a validated function into a builder that has been told nothing
/// yet, and gives the tables of the values, blocks and temporaries that the
/// builder made.
///
/// The function is within the limits of the code generator, which
/// [`fits`] tells. The stream is walked once, in order. What the builder is
/// told is exactly [`body`] of the function, which is [`lowering`] of the
/// function and the tables; the tables hold the numbers that a builder
/// gives which numbers what it makes in order. After it the builder can be
/// finished.
pub fn lower_function(fb: &mut FunctionBuilder<'_>, f: &Function) -> (st: Lowering)
    requires
        check(f@) is Ok,
        within_limits(f@),
        built(old(fb)) == Seq::<Emitted>::empty(),
    ensures
        built(final(fb)) == lowering(f@, st.values@, st.blocks@, st.temps@),
        built(final(fb)) == body(f@),
        st.values@ == values_upto(f@, f@.code.len() as int),
        st.blocks@ == blocks_upto(f@, f@.code.len() as int),
        st.temps@ == temps_upto(f@, f@.code.len() as int),
        can_finish(summarize(built(final(fb)))),
        st.cursor() == (Cursor { open: false, ..cursor_at(f@, f@.code.len() as int) }),
        st.values@.len() == crate::typing::defined_before(f@, f@.code.len() as int).len(),
{
    let mut st = open_entry(fb, &f.signature.inputs);
    let ghost decl = declared_blocks(f@.inputs, f@.code);
    let ghost mut vars = f@.inputs;
    let n = f.code.len();
    let mut i: usize = 0;
    while i < n
        invariant
            n == f.code@.len(),
            n == f@.code.len(),
            n < usize::MAX - 1,
            i <= n,
            check(f@) is Ok,
            within_limits(f@),
            decl == declared_blocks(f@.inputs, f@.code),
            scope_at(f@, i as int) == Ok::<Scope, crate::error::TypeError>(
                Scope { vars, open: st.open, blocks: st.declared as int },
            ),
            cursor_at(f@, i as int) == st.cursor(),
            in_step(summarize(built(fb)), st.values@, st.blocks@, vars, st.cursor()),
            built(fb) == events_upto(f@, i as int, st.values@, st.blocks@, st.temps@),
            summarize(built(fb)).values == made(f@, i as int),
            st.values@ == values_upto(f@, i as int),
            st.temps@ == temps_upto(f@, i as int),
        decreases n - i,
    {
        let ghost before = st;
        let ghost log = built(fb);
        proof {
            lemma_passes_throughout(f@, i as int);
            lemma_cursor_matches_scope(f@, i as int);
            assert(f@.code[i as int] == f.code@[i as int]@);
            lemma_made_grows(f@, i + 1, n as int);
        }
        lower_inst(fb, &mut st, &f.code[i], Ghost(decl), Ghost(f@.outputs), Ghost(vars));
        proof {
            lemma_cursor_matches_scope(f@, i + 1);
            lemma_advance_grows(before.cursor(), f@.code[i as int]);
            assert(agree(before.values@, st.values@, before.cursor().values)) by {
                assert forall|k: int| 0 <= k < before.values@.len() implies before.values@[k]
                    == st.values@[k] by {
                    assert(st.values@.subrange(0, before.values@.len() as int)[k] == st.values@[k]);
                }
            }
            assert(agree(before.blocks@, st.blocks@, before.cursor().created)) by {
                assert forall|k: int| 0 <= k < before.blocks@.len() implies before.blocks@[k]
                    == st.blocks@[k] by {
                    assert(st.blocks@.subrange(0, before.blocks@.len() as int)[k] == st.blocks@[k]);
                }
            }
            assert(agree(before.temps@, st.temps@, before.cursor().temps)) by {
                assert forall|k: int| 0 <= k < before.temps@.len() implies before.temps@[k]
                    == st.temps@[k] by {
                    assert(st.temps@.subrange(0, before.temps@.len() as int)[k] == st.temps@[k]);
                }
            }
            lemma_events_stable(
                f@,
                i as int,
                before.values@,
                before.blocks@,
                before.temps@,
                st.values@,
                st.blocks@,
                st.temps@,
            );
            vars = scope_at(f@, i + 1).unwrap().vars;
        }
        i += 1;
    }
    let ghost c = st.cursor();
    let ghost log = built(fb);
    let ghost last: Seq<Emitted> = if c.open {
        seq![returned(Seq::<u32>::empty())]
    } else {
        Seq::<Emitted>::empty()
    };
    if st.open {
        let none: Vec<u32> = Vec::new();
        proof {
            assert(none@ =~= Seq::<u32>::empty());
            assert(summarize(log).status.dom().contains(st.blocks@[c.declared]));
        }
        emit_return(fb, &none);
        st.open = false;
        proof {
            lemma_summarize_push(log, returned(none@));
            lemma_after_terminator(summarize(log), returned(none@), st.values@, st.blocks@, vars, c);
        }
    }
    let ghost log1 = built(fb);
    assert(log1 =~= log + last);
    seal_all_blocks(fb);
    proof {
        lemma_summarize_push(log1, Emitted::SealAll);
        let s1 = summarize(log1);
        let s2 = summarize(built(fb));
        assert forall|x: u32| s2.status.dom().contains(x) implies !(#[trigger] s2.status[x]
            is Partial) by {
            assert(s1.status.dom().contains(x));
            let j = choose|j: int| 0 <= j < st.blocks@.len() && st.blocks@[j] == x;
            assert(s1.status.dom().contains(st.blocks@[j]));
            assert(block_state_ok(s1.status[st.blocks@[j]], j, st.cursor()));
        }
        lemma_passes_throughout(f@, n as int);
        assert(st.blocks@ =~= blocks_upto(f@, n as int));
    }
    st
}

/// What an object is compiled for, and what it is called.
#[derive(Clone, Debug)]
pub struct Target {
    /// The target triple, such as `aarch64-apple-darwin`.
    pub triple: String,
    /// The calling convention of every function.
    pub convention: Convention,
    /// The name of the module.
    pub module_name: String,
}

/// The lowering error that a module failure stands for: a declaration or
/// definition that contradicts another is a signature mismatch, what the
/// code generator does not support on the target is a gap in the lowering,
/// and any other failure is a refusal of the function.
pub open spec fn spec_classify(k: ModuleFailure) -> LoweringError {
    match k {
        ModuleFailure::Undeclared | ModuleFailure::IncompatibleDeclaration
        | ModuleFailure::IncompatibleSignature | ModuleFailure::DuplicateDefinition
        | ModuleFailure::InvalidImportDefinition => LoweringError::SignatureMismatch,
        ModuleFailure::Unsupported => LoweringError::UnsupportedOpcodeForTarget,
        ModuleFailure::Compilation | ModuleFailure::Allocation | ModuleFailure::Backend
        | ModuleFailure::Flag => LoweringError::Refused,
    }
}

/// Maps a module failure to the lowering error that it stands for.
pub fn classify(k: ModuleFailure) -> (r: LoweringError)
    ensures
        r == spec_classify(k),
{
    match k {
        ModuleFailure::Undeclared
        | ModuleFailure::IncompatibleDeclaration
        | ModuleFailure::IncompatibleSignature
        | ModuleFailure::DuplicateDefinition
        | ModuleFailure::InvalidImportDefinition => LoweringError::SignatureMismatch,
        ModuleFailure::Unsupported => LoweringError::UnsupportedOpcodeForTarget,
        ModuleFailure::Compilation
        | ModuleFailure::Allocation
        | ModuleFailure::Backend
        | ModuleFailure::Flag => LoweringError::Refused,
    }
}

/// The verdict on one function of a program: the defect found in decoding
/// it, else the defect found in validating it, else none.
pub open spec fn verdict(item: Result<FunctionView, DecodeError>) -> Result<(), CompileError> {
    match item {
        Err(e) => Err(CompileError::Decode(e)),
        Ok(f) => match check(f) {
            Err(e) => Err(CompileError::Type(e)),
            Ok(()) => Ok(()),
        },
    }
}

/// The native signature of a function: one parameter for each input and
/// one result for each output, each of the native type of its value type.
pub open spec fn native_signature(f: FunctionView, convention: Convention) -> NativeSignature {
    NativeSignature {
        convention,
        params: native_types(f.inputs),
        returns: native_types(f.outputs),
    }
}

/// The native function that a function is lowered to.
pub open spec fn native_function(f: FunctionView, convention: Convention) -> NativeFunction {
    NativeFunction { signature: native_signature(f, convention), body: body(f) }
}

/// The declaration of a function: under its own name, seen from outside
/// the object.
pub open spec fn declaration(f: FunctionView, convention: Convention) -> Declaration {
    Declaration {
        name: f.name,
        visibility: Visibility::Export,
        signature: native_signature(f, convention),
    }
}

/// What a module for a target is made with: the triple, the name, and
/// optimisation for speed.
pub open spec fn setup(triple: Seq<char>, name: Seq<char>) -> Setup {
    Setup { triple, level: Some("speed"@), name }
}

/// Whether a module can be made for a target: the name of the module holds
/// no character of code zero, which no symbol of an object can hold, the
/// triple can be read, and the code generator supports it.
pub open spec fn usable(triple: Seq<char>, name: Seq<char>) -> bool {
    !name.contains('\0') && readable(triple) && supported(setup(triple, name))
}

/// What comes of compiling one function on its own, in a module that holds
/// nothing else: the failure of its declaration or of its definition, as a
/// lowering error, or none.
pub open spec fn trial_answer(s: Setup, d: Declaration, g: NativeFunction) -> Result<
    (),
    LoweringError,
> {
    match declaring(Seq::empty(), d) {
        Err(k) => Err(spec_classify(k)),
        Ok(_) => match defining(s, g) {
            Some(k) => Err(spec_classify(k)),
            None => Ok(()),
        },
    }
}

/// Where compiling stands once some functions of a program have been looked
/// at.
pub struct Survey {
    /// The functions that are not compiled, each with its position in the
    /// program and its defect.
    pub rejected: Seq<(usize, CompileError)>,
    /// What the module has been asked.
    pub requests: Seq<Request>,
    /// The functions that are to be defined, each with the number that the
    /// module gave it.
    pub picked: Seq<(u32, NativeFunction)>,
    /// Whether compiling has met an operation that the code generator does
    /// not support on the target. That is a gap in the lowering, and the end
    /// of compiling: no function is looked at after it.
    pub halted: bool,
}

/// The survey with one more function listed.
pub open spec fn listing(before: Survey, at: usize, e: CompileError) -> Survey {
    Survey { rejected: before.rejected.push((at, e)), ..before }
}

/// Where compiling stands once the first `n` functions have been looked at.
///
/// A function with a defect of decoding or validation is listed with that
/// defect, and one that is beyond what the code generator can number, or
/// that comes when the module has been asked all that it can number, is
/// listed as too large; the module is asked nothing about either. Any other
/// function is first tried on its own. Where the trial meets an operation
/// that the code generator does not support, compiling halts: such a gap is
/// fatal to the whole and is never passed over. Where the trial fails
/// otherwise, the function is listed with the failure and the module is
/// asked nothing about it. Where the trial passes, the function is
/// declared. It is listed if the module refuses the declaration, and as a
/// signature mismatch if the module answers with the number of a function
/// declared before, which happens where two functions share a name.
/// Otherwise it is to be defined.
pub open spec fn survey(
    items: Seq<Result<FunctionView, DecodeError>>,
    s: Setup,
    convention: Convention,
    n: int,
) -> Survey
    decreases n,
{
    if n <= 0 {
        Survey {
            rejected: Seq::empty(),
            requests: Seq::empty(),
            picked: Seq::empty(),
            halted: false,
        }
    } else {
        look(survey(items, s, convention, n - 1), (n - 1) as usize, items[n - 1], s, convention)
    }
}

/// The survey once one more function, which stands at `at`, has been
/// looked at.
pub open spec fn look(
    before: Survey,
    at: usize,
    item: Result<FunctionView, DecodeError>,
    s: Setup,
    convention: Convention,
) -> Survey {
    if before.halted {
        before
    } else {
        match verdict(item) {
            Err(e) => listing(before, at, e),
            Ok(()) => {
                let f = item->Ok_0;
                let d = declaration(f, convention);
                let g = native_function(f, convention);
                if !within_limits(f) || before.requests.len() >= NUMBER_LIMIT {
                    listing(before, at, CompileError::Lowering(LoweringError::TooLarge))
                } else {
                    match trial_answer(s, d, g) {
                        Err(e) => if e == LoweringError::UnsupportedOpcodeForTarget {
                            Survey { halted: true, ..before }
                        } else {
                            listing(before, at, CompileError::Lowering(e))
                        },
                        Ok(()) => declared(before, at, d, g),
                    }
                }
            },
        }
    }
}

/// The survey once a function that passed its trial has been declared.
pub open spec fn declared(before: Survey, at: usize, d: Declaration, g: NativeFunction) -> Survey {
    let answer = declaring(before.requests, d);
    let asked = Survey {
        requests: before.requests.push(Request::Declare { declaration: d, answer }),
        ..before
    };
    match answer {
        Err(k) => listing(asked, at, CompileError::Lowering(spec_classify(k))),
        Ok(id) => if declared_in(before.requests).contains(id) {
            listing(asked, at, CompileError::Lowering(LoweringError::SignatureMismatch))
        } else {
            Survey { picked: before.picked.push((id, g)), ..asked }
        },
    }
}

/// The requests that give each of `picked` its body, in order.
pub open spec fn definitions(picked: Seq<(u32, NativeFunction)>) -> Seq<Request> {
    Seq::new(
        picked.len(),
        |k: int| Request::Define { id: picked[k].0, function: picked[k].1 },
    )
}

/// What compiling gives: the bytes of the object with the list of the
/// functions that are not in it, or the failure.
///
/// No module can be made for a target that is not usable. Otherwise every
/// function is looked at, in order, unless compiling halts at a gap in the
/// lowering, which is the failure of the whole. The functions that passed
/// are defined, in order; none of these definitions fails, since the code
/// generator took each function on its own. Then the object is written.
pub open spec fn outcome(
    items: Seq<Result<FunctionView, DecodeError>>,
    triple: Seq<char>,
    convention: Convention,
    name: Seq<char>,
) -> Result<(Seq<u8>, Seq<(usize, CompileError)>), LoweringError> {
    if !usable(triple, name) {
        Err(LoweringError::UnusableTarget)
    } else {
        let s = setup(triple, name);
        let found = survey(items, s, convention, items.len() as int);
        if found.halted {
            Err(LoweringError::UnsupportedOpcodeForTarget)
        } else {
            match writing(
                Image { setup: s, requests: found.requests + definitions(found.picked) },
            ) {
                None => Err(LoweringError::WriteFailed),
                Some(bytes) => Ok((bytes, found.rejected)),
            }
        }
    }
}

/// A function whose name holds the character of code zero is refused when
/// it is tried on its own: no symbol of an object can have that name.
pub proof fn lemma_unnameable_is_refused(s: Setup, d: Declaration, g: NativeFunction)
    requires
        d.name.contains('\0'),
    ensures
        trial_answer(s, d, g) == Err::<(), LoweringError>(LoweringError::Refused),
{
}

/// A function whose name a symbol can have passes its trial exactly where
/// the code generator takes its body.
pub proof fn lemma_trial_is_the_definition(s: Setup, d: Declaration, g: NativeFunction)
    requires
        !d.name.contains('\0'),
    ensures
        trial_answer(s, d, g) is Ok <==> defining(s, g) is None,
        defining(s, g) matches Some(k) ==> trial_answer(s, d, g) == Err::<(), LoweringError>(
            spec_classify(k),
        ),
{
    assert(known(Seq::<Declaration>::empty(), d.name) is None);
}

/// Once compiling has halted, nothing changes.
pub proof fn lemma_halted_stays(
    items: Seq<Result<FunctionView, DecodeError>>,
    s: Setup,
    convention: Convention,
    m: int,
    n: int,
)
    requires
        0 <= m <= n,
        survey(items, s, convention, m).halted,
    ensures
        survey(items, s, convention, n) == survey(items, s, convention, m),
    decreases n,
{
    if n > m {
        lemma_halted_stays(items, s, convention, m, n - 1);
    }
}

/// A function with a defect of decoding or validation is listed with its
/// position and that defect, and the module is asked nothing about it.
pub proof fn lemma_defect_is_listed(
    items: Seq<Result<FunctionView, DecodeError>>,
    s: Setup,
    convention: Convention,
    i: int,
)
    requires
        0 <= i,
        !survey(items, s, convention, i).halted,
        verdict(items[i]) is Err,
    ensures
        survey(items, s, convention, i + 1) == listing(
            survey(items, s, convention, i),
            i as usize,
            verdict(items[i])->Err_0,
        ),
{
}

/// A function without a defect that the code generator refuses when it is
/// tried on its own, for another reason than an operation it does not
/// support, is listed with that refusal, and the module is asked nothing
/// about it.
pub proof fn lemma_refused_is_listed(
    items: Seq<Result<FunctionView, DecodeError>>,
    s: Setup,
    convention: Convention,
    i: int,
    e: LoweringError,
)
    requires
        0 <= i,
        !survey(items, s, convention, i).halted,
        verdict(items[i]) is Ok,
        within_limits(items[i]->Ok_0),
        survey(items, s, convention, i).requests.len() < NUMBER_LIMIT,
        trial_answer(
            s,
            declaration(items[i]->Ok_0, convention),
            native_function(items[i]->Ok_0, convention),
        ) == Err::<(), LoweringError>(e),
        e != LoweringError::UnsupportedOpcodeForTarget,
    ensures
        survey(items, s, convention, i + 1) == listing(
            survey(items, s, convention, i),
            i as usize,
            CompileError::Lowering(e),
        ),
{
}

/// A gap in the lowering is fatal: where the code generator does not
/// support an operation of a function that it is handed, compiling fails
/// as a whole with that failure, whatever else the program holds.
pub proof fn lemma_gap_is_fatal(
    items: Seq<Result<FunctionView, DecodeError>>,
    triple: Seq<char>,
    convention: Convention,
    name: Seq<char>,
    i: int,
)
    requires
        0 <= i < items.len(),
        usable(triple, name),
        !survey(items, setup(triple, name), convention, i).halted,
        verdict(items[i]) is Ok,
        within_limits(items[i]->Ok_0),
        survey(items, setup(triple, name), convention, i).requests.len() < NUMBER_LIMIT,
        trial_answer(
            setup(triple, name),
            declaration(items[i]->Ok_0, convention),
            native_function(items[i]->Ok_0, convention),
        ) == Err::<(), LoweringError>(LoweringError::UnsupportedOpcodeForTarget),
    ensures
        outcome(items, triple, convention, name) == Err::<
            (Seq<u8>, Seq<(usize, CompileError)>),
            LoweringError,
        >(LoweringError::UnsupportedOpcodeForTarget),
{
    lemma_halted_stays(items, setup(triple, name), convention, i + 1, items.len() as int);
}

/// A function without a defect that the code generator takes when it is
/// tried on its own, and that the module gives a number of its own, is not
/// listed: it is declared under its name and native signature, and is to be
/// defined with its lowering as its body.
pub proof fn lemma_taken_is_defined(
    items: Seq<Result<FunctionView, DecodeError>>,
    s: Setup,
    convention: Convention,
    i: int,
    id: u32,
)
    requires
        0 <= i,
        !survey(items, s, convention, i).halted,
        verdict(items[i]) is Ok,
        within_limits(items[i]->Ok_0),
        survey(items, s, convention, i).requests.len() < NUMBER_LIMIT,
        trial_answer(
            s,
            declaration(items[i]->Ok_0, convention),
            native_function(items[i]->Ok_0, convention),
        ) is Ok,
        declaring(
            survey(items, s, convention, i).requests,
            declaration(items[i]->Ok_0, convention),
        ) == Ok::<u32, ModuleFailure>(id),
        !declared_in(survey(items, s, convention, i).requests).contains(id),
    ensures
        survey(items, s, convention, i + 1) == (Survey {
            rejected: survey(items, s, convention, i).rejected,
            requests: survey(items, s, convention, i).requests.push(
                Request::Declare {
                    declaration: declaration(items[i]->Ok_0, convention),
                    answer: Ok(id),
                },
            ),
            picked: survey(items, s, convention, i).picked.push(
                (id, native_function(items[i]->Ok_0, convention)),
            ),
            halted: false,
        }),
{
}

/// A survey looks only at the functions it has come to.
pub proof fn lemma_survey_looks_back(
    a: Seq<Result<FunctionView, DecodeError>>,
    b: Seq<Result<FunctionView, DecodeError>>,
    s: Setup,
    convention: Convention,
    n: int,
)
    requires
        n <= a.len(),
        n <= b.len(),
        forall|k: int| 0 <= k < n ==> a[k] == b[k],
    ensures
        survey(a, s, convention, n) == survey(b, s, convention, n),
    decreases n,
{
    if n > 0 {
        lemma_survey_looks_back(a, b, s, convention, n - 1);
    }
}

/// Past a function with a defect, the module is asked the same, the same
/// functions are to be defined, and compiling halts alike, as if that
/// function were not in the program.
pub proof fn lemma_defect_leaves_no_trace(
    items: Seq<Result<FunctionView, DecodeError>>,
    s: Setup,
    convention: Convention,
    i: int,
    n: int,
)
    requires
        0 <= i < n <= items.len(),
        verdict(items[i]) is Err,
    ensures
        survey(items, s, convention, n).requests == survey(
            items.remove(i),
            s,
            convention,
            n - 1,
        ).requests,
        survey(items, s, convention, n).picked == survey(
            items.remove(i),
            s,
            convention,
            n - 1,
        ).picked,
        survey(items, s, convention, n).halted == survey(
            items.remove(i),
            s,
            convention,
            n - 1,
        ).halted,
    decreases n,
{
    if n == i + 1 {
        lemma_survey_looks_back(items, items.remove(i), s, convention, i);
    } else {
        lemma_defect_leaves_no_trace(items, s, convention, i, n - 1);
        assert(items[n - 1] == items.remove(i)[n - 2]);
    }
}

/// A function with a defect of decoding or validation contributes nothing
/// to the object: compiling the program gives the bytes, or the failure,
/// that compiling the program without that function gives.
pub proof fn lemma_defective_function_is_left_out(
    items: Seq<Result<FunctionView, DecodeError>>,
    triple: Seq<char>,
    convention: Convention,
    name: Seq<char>,
    i: int,
)
    requires
        0 <= i < items.len(),
        verdict(items[i]) is Err,
    ensures
        match (
            outcome(items, triple, convention, name),
            outcome(items.remove(i), triple, convention, name),
        ) {
            (Ok(with), Ok(without)) => with.0 == without.0,
            (Err(with), Err(without)) => with == without,
            _ => false,
        },
{
    lemma_defect_leaves_no_trace(
        items,
        setup(triple, name),
        convention,
        i,
        items.len() as int,
    );
}

/// Compiling depends on nothing but what the program says and the target:
/// where two programs say the same and the targets are the same, what
/// compiling gives for the one it gives for the other, byte for byte.
pub proof fn lemma_equal_programs_compile_alike(
    p: &Program,
    q: &Program,
    t: &Target,
    u: &Target,
    r1: Result<Compiled, LoweringError>,
    r2: Result<Compiled, LoweringError>,
)
    requires
        p@ == q@,
        t.triple@ == u.triple@,
        t.convention == u.convention,
        t.module_name@ == u.module_name@,
        shown(r1) == outcome(program_items(p@), t.triple@, t.convention, t.module_name@),
        shown(r2) == outcome(program_items(q@), u.triple@, u.convention, u.module_name@),
    ensures
        shown(r1) == shown(r2),
        r1 matches Ok(c1) ==> r2 is Ok && r2->Ok_0.object@ == c1.object@ && r2->Ok_0.rejected@
            == c1.rejected@,
        r1 matches Err(e) ==> r2 == Err::<Compiled, LoweringError>(e),
{
}

/// What each borrowed item says.
pub open spec fn borrowed_view(items: Seq<Result<&Function, DecodeError>>) -> Seq<
    Result<FunctionView, DecodeError>,
> {
    Seq::new(
        items.len(),
        |i: int|
            match items[i] {
                Ok(f) => Ok(f@),
                Err(e) => Err(e),
            },
    )
}

/// The outcome of compiling a program.
#[derive(Clone, Debug, PartialEq, Eq)]
pub struct Compiled {
    /// The relocatable object, which holds every function that passed.
    pub object: Vec<u8>,
    /// The functions that did not pass, with their positions in the program.
    /// They contribute nothing to the object.
    pub rejected: Vec<(usize, CompileError)>,
}

impl View for Compiled {
    type V = (Seq<u8>, Seq<(usize, CompileError)>);

    open spec fn view(&self) -> (Seq<u8>, Seq<(usize, CompileError)>) {
        (self.object@, self.rejected@)
    }
}

/// What an outcome says.
pub open spec fn shown(r: Result<Compiled, LoweringError>) -> Result<
    (Seq<u8>, Seq<(usize, CompileError)>),
    LoweringError,
> {
    match r {
        Ok(c) => Ok(c@),
        Err(e) => Err(e),
    }
}

/// The outcome of compiling, given what the object writer returned: the
/// object with the list of rejected functions, or the failure of the code
/// generator.
pub fn conclude(
    written: Result<Vec<u8>, LoweringError>,
    rejected: Vec<(usize, CompileError)>,
) -> (r: Result<Compiled, LoweringError>)
    ensures
        match written {
            Ok(bytes) => r is Ok && r.unwrap().object == bytes && r.unwrap().rejected == rejected,
            Err(e) => r is Err && r->Err_0 == e,
        },
{
    match written {
        Ok(object) => Ok(Compiled { object, rejected }),
        Err(e) => Err(e),
    }
}

impl Target {
    /// The target that functions are compiled for where none is given:
    /// 64-bit ARM under macOS, with its calling convention.
    pub fn apple_aarch64() -> (r: Target)
        ensures
            r.triple@ == "aarch64-apple-darwin"@,
            r.convention == Convention::AppleAarch64,
            r.module_name@ == "???"@,
    {
        Target {
            triple: "aarch64-apple-darwin".to_owned(),
            convention: Convention::AppleAarch64,
            module_name: "???".to_owned(),
        }
    }
}

/// Gives the function of `ctx` the native signature of `f`, and leaves its
/// body as it is.
fn declare_signature(ctx: &mut cranelift_codegen::Context, f: &Function, convention: Convention)
    ensures
        held(final(ctx)) == (NativeFunction {
            signature: native_signature(f@, convention),
            body: held(old(ctx)).body,
        }),
{
    reset_signature(ctx, convention);
    let ghost body = held(ctx).body;
    let mut i: usize = 0;
    while i < f.signature.inputs.len()
        invariant
            i <= f.signature.inputs@.len(),
            held(ctx).body == body,
            held(ctx).signature.convention == convention,
            held(ctx).signature.params == native_types(f.signature.inputs@).take(i as int),
            held(ctx).signature.returns == Seq::<NativeTy>::empty(),
        decreases f.signature.inputs@.len() - i,
    {
        add_param(ctx, compile_valtype(f.signature.inputs[i]));
        assert(native_types(f.signature.inputs@).take(i + 1) =~= native_types(
            f.signature.inputs@,
        ).take(i as int).push(native_type(f.signature.inputs@[i as int])));
        i += 1;
    }
    assert(native_types(f.signature.inputs@).take(i as int) =~= native_types(f.signature.inputs@));
    let mut j: usize = 0;
    while j < f.signature.outputs.len()
        invariant
            j <= f.signature.outputs@.len(),
            held(ctx).body == body,
            held(ctx).signature.convention == convention,
            held(ctx).signature.params == native_types(f.signature.inputs@),
            held(ctx).signature.returns == native_types(f.signature.outputs@).take(j as int),
        decreases f.signature.outputs@.len() - j,
    {
        add_return(ctx, compile_valtype(f.signature.outputs[j]));
        assert(native_types(f.signature.outputs@).take(j + 1) =~= native_types(
            f.signature.outputs@,
        ).take(j as int).push(native_type(f.signature.outputs@[j as int])));
        j += 1;
    }
    assert(native_types(f.signature.outputs@).take(j as int) =~= native_types(
        f.signature.outputs@,
    ));
}

/// Makes a module for a target that was asked nothing yet, with
/// optimisation for speed.
fn new_module(target: &Target) -> (r: Result<cranelift_object::ObjectModule, LoweringError>)
    ensures
        match r {
            Ok(m) => usable(target.triple@, target.module_name@) && contents(&m) == vacant(
                setup(target.triple@, target.module_name@),
            ),
            Err(e) => e == LoweringError::UnusableTarget && !usable(
                target.triple@,
                target.module_name@,
            ),
        },
{
    if has_nul(target.module_name.as_str()) {
        return Err(LoweringError::UnusableTarget);
    }
    let triple = match parse_triple(target.triple.as_str()) {
        Some(t) => t,
        None => {
            return Err(LoweringError::UnusableTarget);
        },
    };
    let mut settings = settings_builder();
    match set_opt_level(&mut settings, "speed") {
        Ok(()) => {},
        Err(_) => {
            return Err(LoweringError::UnusableTarget);
        },
    }
    let flags = flags_new(settings);
    match object_builder(triple, flags, target.module_name.as_str()) {
        Some(b) => Ok(object_module(b)),
        None => Err(LoweringError::UnusableTarget),
    }
}

/// Lowers a validated function into a compilation context of its own.
fn build_function(f: &Function, convention: Convention) -> (r: cranelift_codegen::Context)
    requires
        check(f@) is Ok,
        within_limits(f@),
    ensures
        held(&r) == native_function(f@, convention),
{
    let mut scratch = new_context();
    let mut fbc = new_builder_context();
    let mut fb = new_builder(&mut scratch, &mut fbc);
    let _ = lower_function(&mut fb, f);
    let mut ctx = finalize(fb);
    declare_signature(&mut ctx, f, convention);
    ctx
}

/// Compiles the function of `ctx` on its own under the name `name`, in a
/// module that is thrown away, to learn whether the code generator takes
/// it.
fn trial(name: &str, ctx: &cranelift_codegen::Context, target: &Target) -> (r: Result<
    (),
    LoweringError,
>)
    requires
        usable(target.triple@, target.module_name@),
    ensures
        r == trial_answer(
            setup(target.triple@, target.module_name@),
            (Declaration {
                name: name@,
                visibility: Visibility::Export,
                signature: held(ctx).signature,
            }),
            held(ctx),
        ),
{
    let mut module = new_module(target)?;
    let ghost d = Declaration {
        name: name@,
        visibility: Visibility::Export,
        signature: held(ctx).signature,
    };
    let id = match declare_function(&mut module, name, Visibility::Export, ctx) {
        Ok(id) => id,
        Err(e) => {
            return Err(classify(failure_kind(&e)));
        },
    };
    proof {
        lemma_request_push(
            Seq::<Request>::empty(),
            Request::Declare { declaration: d, answer: Ok(id) },
        );
    }
    let mut copy = copy_context(ctx);
    match define_function(&mut module, id, &mut copy) {
        Ok(()) => Ok(()),
        Err(e) => Err(classify(failure_kind(&e))),
    }
}

/// Whether `id` is among `ids`.
fn holds(ids: &Vec<u32>, id: u32) -> (r: bool)
    ensures
        r == ids@.contains(id),
{
    let mut i: usize = 0;
    while i < ids.len()
        invariant
            i <= ids@.len(),
            forall|j: int| 0 <= j < i ==> ids@[j] != id,
        decreases ids@.len() - i,
    {
        if ids[i] == id {
            return true;
        }
        i += 1;
    }
    false
}

/// Whether the tables of a compilation in progress agree with a survey:
/// function `k` to be defined has the number `ids[k]` and is the function
/// of the context `ctxs[k]`, which the code generator takes; no number
/// occurs twice, and the numbers are those that the module has declared.
spec fn in_hand(
    found: Survey,
    s: Setup,
    ids: Seq<u32>,
    ctxs: Seq<cranelift_codegen::Context>,
) -> bool {
    &&& !found.halted
    &&& kept(found.picked, s, ids, ctxs)
    &&& forall|j: int, k: int| 0 <= j < k < ids.len() ==> ids[j] != ids[k]
    &&& numbered(found.requests, ids)
}

/// Whether function `k` to be defined has the number `ids[k]` and is the
/// function of the context `ctxs[k]`, which the code generator takes.
spec fn kept(
    picked: Seq<(u32, NativeFunction)>,
    s: Setup,
    ids: Seq<u32>,
    ctxs: Seq<cranelift_codegen::Context>,
) -> bool {
    &&& ids.len() == picked.len()
    &&& ctxs.len() == picked.len()
    &&& forall|k: int|
        0 <= k < ids.len() ==> (#[trigger] picked[k]) == (ids[k], held(&ctxs[k])) && defining(
            s,
            held(&ctxs[k]),
        ) is None
}

/// Whether the module has declared the functions `ids` and defined none.
spec fn numbered(requests: Seq<Request>, ids: Seq<u32>) -> bool {
    &&& forall|x: u32| #[trigger] declared_in(requests).contains(x) <==> ids.contains(x)
    &&& defined_in(requests) =~= Set::<u32>::empty()
}

/// Listing a function leaves the tables in agreement with the survey.
proof fn lemma_listing_in_hand(
    before: Survey,
    at: usize,
    e: CompileError,
    s: Setup,
    ids: Seq<u32>,
    ctxs: Seq<cranelift_codegen::Context>,
)
    requires
        in_hand(before, s, ids, ctxs),
    ensures
        in_hand(listing(before, at, e), s, ids, ctxs),
{
}

/// A declaration that the module refuses, or answers with the number of a
/// function declared before, leaves the tables in agreement with the
/// survey.
proof fn lemma_asked_in_hand(
    before: Survey,
    at: usize,
    d: Declaration,
    g: NativeFunction,
    s: Setup,
    ids: Seq<u32>,
    ctxs: Seq<cranelift_codegen::Context>,
)
    requires
        in_hand(before, s, ids, ctxs),
        declaring(before.requests, d) matches Ok(id) ==> ids.contains(id),
    ensures
        in_hand(declared(before, at, d, g), s, ids, ctxs),
{
    lemma_request_push(
        before.requests,
        Request::Declare { declaration: d, answer: declaring(before.requests, d) },
    );
}

/// A declaration that the module answers with a number of its own, for a
/// function that the code generator takes, leaves the tables in agreement
/// with the survey once the number and the context are added to them.
proof fn lemma_picked_in_hand(
    before: Survey,
    at: usize,
    d: Declaration,
    g: NativeFunction,
    id: u32,
    s: Setup,
    ids: Seq<u32>,
    ctxs: Seq<cranelift_codegen::Context>,
    ctx: cranelift_codegen::Context,
)
    requires
        in_hand(before, s, ids, ctxs),
        declaring(before.requests, d) == Ok::<u32, ModuleFailure>(id),
        !ids.contains(id),
        held(&ctx) == g,
        defining(s, g) is None,
    ensures
        declared(before, at, d, g).rejected == before.rejected,
        in_hand(declared(before, at, d, g), s, ids.push(id), ctxs.push(ctx)),
{
    lemma_request_push(before.requests, Request::Declare { declaration: d, answer: Ok(id) });
    let after = declared(before, at, d, g);
    let ids1 = ids.push(id);
    let ctxs1 = ctxs.push(ctx);
    assert(!declared_in(before.requests).contains(id));
    assert(after.picked == before.picked.push((id, g)));
    assert forall|k: int| 0 <= k < ids1.len() implies (#[trigger] after.picked[k]) == (
        ids1[k],
        held(&ctxs1[k]),
    ) && defining(s, held(&ctxs1[k])) is None by {
        if k < ids.len() {
            assert(before.picked[k] == after.picked[k]);
        }
    }
    assert forall|x: u32| #[trigger]
        declared_in(after.requests).contains(x) <==> ids1.contains(x) by {
        if ids.contains(x) {
            let j = choose|j: int| 0 <= j < ids.len() && ids[j] == x;
            assert(ids1[j] == x);
        }
        if x == id {
            assert(ids1[ids.len() as int] == x);
        }
        if ids1.contains(x) {
            let j = choose|j: int| 0 <= j < ids1.len() && ids1[j] == x;
            if j < ids.len() {
                assert(ids[j] == x);
            }
        }
    }
    assert forall|j: int, k: int| 0 <= j < k < ids1.len() implies ids1[j] != ids1[k] by {
        if k == ids.len() {
            assert(ids[j] == ids1[j]);
            assert(ids.contains(ids1[j]));
        }
    }
}

/// The numbers of the first `k` functions of `ids` are the defined ones.
spec fn defined_upto(image: Image, ids: Seq<u32>, k: int) -> bool {
    forall|x: u32|
        image.defined().contains(x) <==> exists|j: int| 0 <= j < k && #[trigger] ids[j] == x
}

/// Compiles the functions that passed decoding and validation into one
/// object, and lists the others.
///
/// Every function is declared before any is defined. A function is declared
/// only once the code generator has taken it in a trial, so that a function
/// which it refuses is listed and leaves no trace in the object.
fn compile_items(items: &Vec<Result<&Function, DecodeError>>, target: &Target) -> (r: Result<
    Compiled,
    LoweringError,
>)
    ensures
        shown(r) == outcome(
            borrowed_view(items@),
            target.triple@,
            target.convention,
            target.module_name@,
        ),
{
    let ghost view = borrowed_view(items@);
    let ghost su = setup(target.triple@, target.module_name@);
    let ghost conv = target.convention;
    let n = items.len();
    let mut module = match new_module(target) {
        Ok(m) => m,
        Err(e) => {
            return Err(e);
        },
    };
    let mut rejected: Vec<(usize, CompileError)> = Vec::new();
    let mut ctxs: Vec<cranelift_codegen::Context> = Vec::new();
    let mut ids: Vec<u32> = Vec::new();
    let mut asked: usize = 0;
    let mut i: usize = 0;
    while i < n
        invariant
            n == items@.len(),
            i <= n,
            view == borrowed_view(items@),
            su == setup(target.triple@, target.module_name@),
            conv == target.convention,
            usable(target.triple@, target.module_name@),
            rejected@ == survey(view, su, conv, i as int).rejected,
            asked == survey(view, su, conv, i as int).requests.len(),
            contents(&module) == (Image {
                setup: su,
                requests: survey(view, su, conv, i as int).requests,
            }),
            in_hand(survey(view, su, conv, i as int), su, ids@, ctxs@),
        decreases n - i,
    {
        assert(view[i as int] == match items@[i as int] {
            Ok(f) => Ok::<FunctionView, DecodeError>(f@),
            Err(e) => Err::<FunctionView, DecodeError>(e),
        });
        let ghost before = survey(view, su, conv, i as int);
        assert(survey(view, su, conv, i + 1) == look(before, i, view[i as int], su, conv));
        match &items[i] {
            Err(e) => {
                rejected.push((i, CompileError::Decode(*e)));
                proof {
                    lemma_listing_in_hand(before, i, CompileError::Decode(*e), su, ids@, ctxs@);
                }

            },
            Ok(f) => match check_function(f) {
                Err(e) => {
                    rejected.push((i, CompileError::Type(e)));
                    proof {
                        lemma_listing_in_hand(before, i, CompileError::Type(e), su, ids@, ctxs@);
                    }

                },
                Ok(()) => if !fits(f) || asked >= NUMBER_LIMIT {
                    rejected.push((i, CompileError::Lowering(LoweringError::TooLarge)));
                    proof {
                        lemma_listing_in_hand(
                            before,
                            i,
                            CompileError::Lowering(LoweringError::TooLarge),
                            su,
                            ids@,
                            ctxs@,
                        );
                    }

                } else {
                    let ctx = build_function(f, target.convention);
                    let ghost d = declaration(f@, conv);
                    let ghost g = native_function(f@, conv);
                    match trial(f.name.as_str(), &ctx, target) {
                        Err(LoweringError::UnsupportedOpcodeForTarget) => {
                            proof {
                                lemma_halted_stays(view, su, conv, i + 1, n as int);
                            }
                            return Err(LoweringError::UnsupportedOpcodeForTarget);
                        },
                        Err(e) => {
                            rejected.push((i, CompileError::Lowering(e)));
                            proof {
                                lemma_listing_in_hand(
                                    before,
                                    i,
                                    CompileError::Lowering(e),
                                    su,
                                    ids@,
                                    ctxs@,
                                );
                            }

                        },
                        Ok(()) => {
                            let answer = declare_function(
                                &mut module,
                                f.name.as_str(),
                                Visibility::Export,
                                &ctx,
                            );
                            asked += 1;
                            proof {
                                lemma_request_push(
                                    before.requests,
                                    Request::Declare {
                                        declaration: d,
                                        answer: declaring(before.requests, d),
                                    },
                                );
                            }
                            match answer {
                                Err(e) => {
                                    rejected.push(
                                        (i, CompileError::Lowering(classify(failure_kind(&e)))),
                                    );
                                    proof {
                                        lemma_asked_in_hand(before, i, d, g, su, ids@, ctxs@);
                                    }

                                },
                                Ok(id) => {
                                    if holds(&ids, id) {
                                        rejected.push(
                                            (
                                                i,
                                                CompileError::Lowering(
                                                    LoweringError::SignatureMismatch,
                                                ),
                                            ),
                                        );
                                        proof {
                                            lemma_asked_in_hand(before, i, d, g, su, ids@, ctxs@);
                                        }

                                    } else {
                                        proof {
                                            lemma_picked_in_hand(
                                                before,
                                                i,
                                                d,
                                                g,
                                                id,
                                                su,
                                                ids@,
                                                ctxs@,
                                                ctx,
                                            );
                                        }
                                        ids.push(id);
                                        ctxs.push(ctx);
                                    }
                                },
                            }
                        },
                    }
                },
            },
        }
        i += 1;
    }
    let ghost found = survey(view, su, conv, n as int);
    let ghost all = definitions(found.picked);
    let m = ids.len();
    let mut k: usize = 0;
    assert(found.requests + all.take(0) =~= found.requests);
    while k < m
        invariant
            m == ids@.len(),
            k <= m,
            in_hand(found, su, ids@, ctxs@),
            all == definitions(found.picked),
            contents(&module) == (Image { setup: su, requests: found.requests + all.take(k as int) }),
            forall|x: u32| contents(&module).declared().contains(x) <==> ids@.contains(x),
            defined_upto(contents(&module), ids@, k as int),
        decreases m - k,
    {
        let ghost image = contents(&module);
        let ghost id = ids@[k as int];
        let ghost g = held(&ctxs@[k as int]);
        assert(found.picked[k as int] == (id, g));
        assert(ids@.contains(id));
        assert(!image.defined().contains(id)) by {
            if image.defined().contains(id) {
                let j = choose|j: int| 0 <= j < k && #[trigger] ids@[j] == id;
                assert(ids@[j] != ids@[k as int]);
            }
        }
        let mut copy = copy_context(&ctxs[k]);
        match define_function(&mut module, ids[k], &mut copy) {
            Ok(()) => {
                proof {
                    lemma_request_push(image.requests, Request::Define { id, function: g });
                    assert(all.take(k + 1) =~= all.take(k as int).push(all[k as int]));
                    assert(found.requests + all.take(k + 1) =~= (found.requests + all.take(
                        k as int,
                    )).push(Request::Define { id, function: g }));
                    assert forall|x: u32|
                        contents(&module).defined().contains(x) <==> exists|j: int|
                            0 <= j < k + 1 && #[trigger] ids@[j] == x by {
                        if image.defined().contains(x) {
                            let j = choose|j: int| 0 <= j < k && #[trigger] ids@[j] == x;
                            assert(0 <= j < k + 1 && ids@[j] == x);
                        }
                        if x == id {
                            assert(0 <= k < k + 1 && ids@[k as int] == x);
                        }
                    }
                }
            },
            Err(e) => {
                // Never reached: the code generator took this function on
                // its own, and compiling reads nothing else of the module.
                return Err(classify(failure_kind(&e)));
            },
        }
        k += 1;
    }
    assert(contents(&module).declared().subset_of(contents(&module).defined())) by {
        assert forall|x: u32| contents(&module).declared().contains(x) implies contents(
            &module,
        ).defined().contains(x) by {
            assert(ids@.contains(x));
            let j = choose|j: int| 0 <= j < ids@.len() && ids@[j] == x;
            assert(0 <= j < m && ids@[j] == x);
        }
    }
    assert(all.take(m as int) =~= all);
    let product = finish(module);
    let written = match emit_object(product) {
        Ok(bytes) => Ok(bytes),
        Err(_) => Err(LoweringError::WriteFailed),
    };
    conclude(written, rejected)
}

/// What each function of a program says, as an item that decoded without
/// defect.
pub open spec fn program_items(p: Seq<FunctionView>) -> Seq<Result<FunctionView, DecodeError>> {
    Seq::new(p.len(), |i: int| Ok(p[i]))
}

/// Compiles a program for a target.
///
/// Each function is validated on its own. A function with a defect, one
/// that is beyond what the code generator can number, or one that the code
/// generator refuses when it is tried on its own, is listed with its
/// position and its defect and leaves no trace in the object; every other
/// function is declared, lowered and defined. An error is returned where
/// no module can be made for the target, where the code generator does not
/// support an operation that it is handed, which is a gap in the lowering
/// and fatal to the whole, and where the object cannot be written; then no
/// object is given. What is returned is [`outcome`] of the program and the
/// target.
pub fn compile_for(program: &Program, target: &Target) -> (r: Result<Compiled, LoweringError>)
    ensures
        shown(r) == outcome(
            program_items(program@),
            target.triple@,
            target.convention,
            target.module_name@,
        ),
{
    let mut items: Vec<Result<&Function, DecodeError>> = Vec::new();
    let n = program.functions.len();
    let mut i: usize = 0;
    while i < n
        invariant
            n == program.functions@.len(),
            i <= n,
            items@.len() == i,
            forall|k: int|
                0 <= k < i ==> (#[trigger] items@[k]) == Ok::<&Function, DecodeError>(
                    &program.functions@[k],
                ),
        decreases n - i,
    {
        items.push(Ok(&program.functions[i]));
        i += 1;
    }
    assert(borrowed_view(items@) =~= program_items(program@));
    compile_items(&items, target)
}

/// Compiles a program for 64-bit ARM under macOS.
pub fn compile(program: &Program) -> (r: Result<Compiled, LoweringError>)
    ensures
        shown(r) == outcome(
            program_items(program@),
            "aarch64-apple-darwin"@,
            Convention::AppleAarch64,
            "???"@,
        ),
{
    compile_for(program, &Target::apple_aarch64())
}

/// Compiles an encoded program for a target.
///
/// The functions are decoded one by one. A defect in the framing of the
/// function records is the program's and is returned; a defect inside a
/// function record, or found in validating a function, is that function's
/// and is listed with its position.
pub fn compile_bytes(bytes: &[u8], target: &Target) -> (r: Result<Compiled, CompileError>)
    ensures
        match decode_items(bytes@) {
            Err(e) => r is Err && r->Err_0 == CompileError::Decode(e),
            Ok(items) => match r {
                Ok(c) => outcome(items, target.triple@, target.convention, target.module_name@)
                    == Ok::<(Seq<u8>, Seq<(usize, CompileError)>), LoweringError>(c@),
                Err(e) => e matches CompileError::Lowering(l) && outcome(
                    items,
                    target.triple@,
                    target.convention,
                    target.module_name@,
                ) == Err::<(Seq<u8>, Seq<(usize, CompileError)>), LoweringError>(l),
            },
        },
{
    let decoded = match Prog::new(bytes).decode_each() {
        Ok(d) => d,
        Err(e) => {
            return Err(CompileError::Decode(e));
        },
    };
    let mut items: Vec<Result<&Function, DecodeError>> = Vec::new();
    let n = decoded.len();
    let mut i: usize = 0;
    while i < n
        invariant
            n == decoded@.len(),
            i <= n,
            items@.len() == i,
            forall|k: int|
                0 <= k < i ==> (#[trigger] items@[k]) == match decoded@[k] {
                    Ok(f) => Ok::<&Function, DecodeError>(&f),
                    Err(e) => Err::<&Function, DecodeError>(e),
                },
        decreases n - i,
    {
        match &decoded[i] {
            Ok(f) => items.push(Ok(f)),
            Err(e) => items.push(Err(*e)),
        }
        i += 1;
    }
    assert(borrowed_view(items@) =~= items_view(decoded@));
    match compile_items(&items, target) {
        Ok(c) => Ok(c),
        Err(e) => Err(CompileError::Lowering(e)),
    }
}

} // verus!
