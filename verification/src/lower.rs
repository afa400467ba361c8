//! What lowering tells the function builder, stated as a function of the
//! instruction stream and of the numbers that the builder gave to the blocks
//! and values it made.

use vstd::prelude::*;
use crate::bytecode::{Cond, Function, FunctionView, Inst, InstView, VarId};
use crate::ir_op::{Op11, Op21, Op31};
use crate::ir_ty::Ty;
use crate::typing::{
    check, declared_blocks, lemma_args_typed, lemma_cond_typed, lemma_operands_from,
    lemma_passes_throughout, scope_at, step, Scope,
};
use crate::native::{
    applied, branched, created, jumped, native_type, native_types, param, result_type, returned,
    switched, width, Compare, Emitted, NativeOp, NativeTy, PARAMS_LIMIT, NUMBER_LIMIT,
};

verus! {

/// The primitive that an operation of one operand lowers to.
pub open spec fn native_op11(op: Op11) -> NativeOp {
    match op {
        Op11::BoolNot => NativeOp::BxorImm(1),
        Op11::I128HiI64 => NativeOp::IsplitHi,
        Op11::I128ToI64 => NativeOp::Ireduce(NativeTy::I64),
        Op11::I64Abs => NativeOp::Iabs,
        Op11::I64BitNot => NativeOp::Bnot,
        Op11::I64Clz => NativeOp::Clz,
        Op11::I64Ctz => NativeOp::Ctz,
        Op11::I64IsNonZero => NativeOp::IcmpImm(Compare::NotEqual, 0),
        Op11::I64Neg => NativeOp::Ineg,
        Op11::I64Popcount => NativeOp::Popcnt,
        Op11::I64RevBits => NativeOp::Bitrev,
        Op11::I64RevBytes => NativeOp::Bswap,
        Op11::I64ToI6 => NativeOp::Ireduce(NativeTy::I8),
    }
}

/// The primitives that an operation of two operands lowers to: one for each
/// of its results, each applied to both operands. A full multiplication is a
/// multiplication for the low word and a high multiplication for the high
/// word.
pub open spec fn native_op21(op: Op21) -> Seq<NativeOp> {
    match op {
        Op21::BoolAnd => seq![NativeOp::Band],
        Op21::BoolEq => seq![NativeOp::Icmp(Compare::Equal)],
        Op21::BoolNeq => seq![NativeOp::Icmp(Compare::NotEqual)],
        Op21::BoolOr => seq![NativeOp::Bor],
        Op21::I64Add => seq![NativeOp::Iadd],
        Op21::I64BitAnd => seq![NativeOp::Band],
        Op21::I64BitOr => seq![NativeOp::Bor],
        Op21::I64BitXor => seq![NativeOp::Bxor],
        Op21::I64IsEq => seq![NativeOp::Icmp(Compare::Equal)],
        Op21::I64IsGeS => seq![NativeOp::Icmp(Compare::SignedGreaterThanOrEqual)],
        Op21::I64IsGeU => seq![NativeOp::Icmp(Compare::UnsignedGreaterThanOrEqual)],
        Op21::I64IsGtS => seq![NativeOp::Icmp(Compare::SignedGreaterThan)],
        Op21::I64IsGtU => seq![NativeOp::Icmp(Compare::UnsignedGreaterThan)],
        Op21::I64IsLeS => seq![NativeOp::Icmp(Compare::SignedLessThanOrEqual)],
        Op21::I64IsLeU => seq![NativeOp::Icmp(Compare::UnsignedLessThanOrEqual)],
        Op21::I64IsLtS => seq![NativeOp::Icmp(Compare::SignedLessThan)],
        Op21::I64IsLtU => seq![NativeOp::Icmp(Compare::UnsignedLessThan)],
        Op21::I64IsNeq => seq![NativeOp::Icmp(Compare::NotEqual)],
        Op21::I64MaxS => seq![NativeOp::Smax],
        Op21::I64MaxU => seq![NativeOp::Umax],
        Op21::I64MinS => seq![NativeOp::Smin],
        Op21::I64MinU => seq![NativeOp::Umin],
        Op21::I64Mul => seq![NativeOp::Imul],
        Op21::I64MulFullS => seq![NativeOp::Imul, NativeOp::Smulhi],
        Op21::I64MulFullU => seq![NativeOp::Imul, NativeOp::Umulhi],
        Op21::I64MulHiS => seq![NativeOp::Smulhi],
        Op21::I64MulHiU => seq![NativeOp::Umulhi],
        Op21::I64Rol => seq![NativeOp::Rotl],
        Op21::I64Ror => seq![NativeOp::Rotr],
        Op21::I64Shl => seq![NativeOp::Ishl],
        Op21::I64ShrS => seq![NativeOp::Sshr],
        Op21::I64ShrU => seq![NativeOp::Ushr],
        Op21::I64Sub => seq![NativeOp::Isub],
    }
}

/// The primitive that an operation of three operands lowers to.
pub open spec fn native_op31(op: Op31) -> NativeOp {
    match op {
        Op31::I64Sel => NativeOp::Select,
    }
}

/// The primitives that an instruction lowers to where it defines values by
/// computing them: one primitive for each value, each applied to all the
/// operands of the instruction.
pub open spec fn natives(i: InstView) -> Seq<NativeOp> {
    match i {
        InstView::ImmBool(b) => seq![
            NativeOp::Iconst(
                NativeTy::I8,
                if b {
                    1i64
                } else {
                    0i64
                },
            ),
        ],
        InstView::ImmI6(x) => seq![NativeOp::Iconst(NativeTy::I8, x as i64)],
        InstView::ImmI64(x) => seq![NativeOp::Iconst(NativeTy::I64, x as i64)],
        InstView::Op11(op, _) => seq![native_op11(op)],
        InstView::Op21(op, _, _) => native_op21(op),
        InstView::Op31(op, _, _, _) => seq![native_op31(op)],
        _ => Seq::empty(),
    }
}

/// The operands of an instruction that computes values.
pub open spec fn operands(i: InstView) -> Seq<VarId> {
    match i {
        InstView::Op11(_, x) => seq![x],
        InstView::Op21(_, x, y) => seq![x, y],
        InstView::Op31(_, x, y, z) => seq![x, y, z],
        _ => Seq::empty(),
    }
}

/// The types that the operands of an instruction that computes values must
/// have.
pub open spec fn operand_types(i: InstView) -> Seq<Ty> {
    match i {
        InstView::Op11(op, _) => op.spec_inputs(),
        InstView::Op21(op, _, _) => op.spec_inputs(),
        InstView::Op31(op, _, _, _) => op.spec_inputs(),
        _ => Seq::empty(),
    }
}

/// Every declared operation has a lowering: an instruction that computes
/// values lowers to exactly one primitive for each value it defines, and
/// each primitive takes operands of the native types of the instruction's
/// operand types and gives a value of the native type of the result it
/// stands for.
pub proof fn lemma_natives_total(i: InstView)
    requires
        !(i is Block),
    ensures
        natives(i).len() == i.defs().len(),
        forall|k: int|
            0 <= k < natives(i).len() ==> result_type(
                #[trigger] natives(i)[k],
                native_types(operand_types(i)),
            ) == Some(native_type(i.defs()[k])),
{
    match i {
        InstView::Op11(op, _) => {
            crate::ir_op::lemma_op11_table(op);
            assert(native_types(op.spec_inputs()) =~= seq![native_type(op.spec_inputs()[0])]);
        },
        InstView::Op21(op, _, _) => {
            crate::ir_op::lemma_op21_table(op);
            assert(native_types(op.spec_inputs()) =~= seq![
                native_type(op.spec_inputs()[0]),
                native_type(op.spec_inputs()[1]),
            ]);
        },
        InstView::Op31(op, _, _, _) => {
            crate::ir_op::lemma_op31_table(op);
            assert(native_types(op.spec_inputs()) =~= seq![
                native_type(op.spec_inputs()[0]),
                native_type(op.spec_inputs()[1]),
                native_type(op.spec_inputs()[2]),
            ]);
        },
        _ => {
            assert(native_types(Seq::<Ty>::empty()) =~= Seq::<NativeTy>::empty());
        },
    }
}

/// The primitive of an operation of one operand.
pub fn lower_op11(op: Op11) -> (r: NativeOp)
    ensures
        r == native_op11(op),
{
    match op {
        Op11::BoolNot => NativeOp::BxorImm(1),
        Op11::I128HiI64 => NativeOp::IsplitHi,
        Op11::I128ToI64 => NativeOp::Ireduce(NativeTy::I64),
        Op11::I64Abs => NativeOp::Iabs,
        Op11::I64BitNot => NativeOp::Bnot,
        Op11::I64Clz => NativeOp::Clz,
        Op11::I64Ctz => NativeOp::Ctz,
        Op11::I64IsNonZero => NativeOp::IcmpImm(Compare::NotEqual, 0),
        Op11::I64Neg => NativeOp::Ineg,
        Op11::I64Popcount => NativeOp::Popcnt,
        Op11::I64RevBits => NativeOp::Bitrev,
        Op11::I64RevBytes => NativeOp::Bswap,
        Op11::I64ToI6 => NativeOp::Ireduce(NativeTy::I8),
    }
}

/// The primitives of an operation of two operands.
pub fn lower_op21(op: Op21) -> (r: Vec<NativeOp>)
    ensures
        r@ == native_op21(op),
{
    let mut r: Vec<NativeOp> = Vec::new();
    match op {
        Op21::BoolAnd | Op21::I64BitAnd => r.push(NativeOp::Band),
        Op21::BoolEq | Op21::I64IsEq => r.push(NativeOp::Icmp(Compare::Equal)),
        Op21::BoolNeq | Op21::I64IsNeq => r.push(NativeOp::Icmp(Compare::NotEqual)),
        Op21::BoolOr | Op21::I64BitOr => r.push(NativeOp::Bor),
        Op21::I64Add => r.push(NativeOp::Iadd),
        Op21::I64BitXor => r.push(NativeOp::Bxor),
        Op21::I64IsGeS => r.push(NativeOp::Icmp(Compare::SignedGreaterThanOrEqual)),
        Op21::I64IsGeU => r.push(NativeOp::Icmp(Compare::UnsignedGreaterThanOrEqual)),
        Op21::I64IsGtS => r.push(NativeOp::Icmp(Compare::SignedGreaterThan)),
        Op21::I64IsGtU => r.push(NativeOp::Icmp(Compare::UnsignedGreaterThan)),
        Op21::I64IsLeS => r.push(NativeOp::Icmp(Compare::SignedLessThanOrEqual)),
        Op21::I64IsLeU => r.push(NativeOp::Icmp(Compare::UnsignedLessThanOrEqual)),
        Op21::I64IsLtS => r.push(NativeOp::Icmp(Compare::SignedLessThan)),
        Op21::I64IsLtU => r.push(NativeOp::Icmp(Compare::UnsignedLessThan)),
        Op21::I64MaxS => r.push(NativeOp::Smax),
        Op21::I64MaxU => r.push(NativeOp::Umax),
        Op21::I64MinS => r.push(NativeOp::Smin),
        Op21::I64MinU => r.push(NativeOp::Umin),
        Op21::I64Mul => r.push(NativeOp::Imul),
        Op21::I64MulFullS => {
            r.push(NativeOp::Imul);
            r.push(NativeOp::Smulhi);
        },
        Op21::I64MulFullU => {
            r.push(NativeOp::Imul);
            r.push(NativeOp::Umulhi);
        },
        Op21::I64MulHiS => r.push(NativeOp::Smulhi),
        Op21::I64MulHiU => r.push(NativeOp::Umulhi),
        Op21::I64Rol => r.push(NativeOp::Rotl),
        Op21::I64Ror => r.push(NativeOp::Rotr),
        Op21::I64Shl => r.push(NativeOp::Ishl),
        Op21::I64ShrS => r.push(NativeOp::Sshr),
        Op21::I64ShrU => r.push(NativeOp::Ushr),
        Op21::I64Sub => r.push(NativeOp::Isub),
    }
    assert(r@ =~= native_op21(op));
    r
}

/// The primitive of an operation of three operands.
pub fn lower_op31(op: Op31) -> (r: NativeOp)
    ensures
        r == native_op31(op),
{
    match op {
        Op31::I64Sel => NativeOp::Select,
    }
}

/// How far lowering has come: how many values, blocks and temporaries the
/// builder has made, how many blocks the stream has declared, and whether a
/// block is open.
pub struct Cursor {
    /// The number of values defined, which is the next value index.
    pub values: int,
    /// The number of native blocks created: the native entry, and after it
    /// one block for each block index that has been named. A block is
    /// created when it is first named, which may be before the stream
    /// declares it.
    pub created: int,
    /// The number of temporaries made: the parameters of the native entry,
    /// and one for each fused branch condition.
    pub temps: int,
    /// The number of blocks declared, the entry among them.
    pub declared: int,
    /// Whether the current block is open.
    pub open: bool,
}

/// The larger of two numbers.
pub open spec fn larger(a: int, b: int) -> int {
    if a >= b {
        a
    } else {
        b
    }
}

/// The cursor after an instruction.
pub open spec fn advance(c: Cursor, i: InstView) -> Cursor {
    match i {
        InstView::Block(tys) => Cursor {
            values: c.values + tys.len(),
            created: larger(c.created, c.declared + 2),
            declared: c.declared + 1,
            open: true,
            ..c
        },
        InstView::Goto(t, _) => Cursor { created: larger(c.created, t.0 + 2), open: false, ..c },
        InstView::If(cond, t, _, e, _) => Cursor {
            created: larger(c.created, larger(t.0 as int, e.0 as int) + 2),
            temps: if cond is Var {
                c.temps
            } else {
                c.temps + 1
            },
            open: false,
            ..c
        },
        InstView::Ret(_) => Cursor { open: false, ..c },
        _ => Cursor { values: c.values + natives(i).len(), ..c },
    }
}

/// The value table grows by exactly the values that an instruction defines:
/// one for an immediate, one for each result of an operation, which is two
/// for a full multiplication, one for each parameter of a block, and none
/// for a jump, a branch or a return.
pub proof fn lemma_value_table_growth(c: Cursor, i: InstView)
    ensures
        advance(c, i).values == c.values + i.defs().len(),
        i matches InstView::Op21(op, _, _) ==> (op == Op21::I64MulFullS || op
            == Op21::I64MulFullU) ==> advance(c, i).values == c.values + 2,
        i matches InstView::Op21(op, _, _) ==> (op != Op21::I64MulFullS && op
            != Op21::I64MulFullU) ==> advance(c, i).values == c.values + 1,
{
    if !(i is Block) {
        lemma_natives_total(i);
    }
}

/// The cursor once the function is entered: the native entry and block 0
/// exist, the inputs are the first values, and the parameters of the native
/// entry are the first temporaries.
pub open spec fn entered(inputs: Seq<Ty>) -> Cursor {
    Cursor {
        values: inputs.len() as int,
        created: 2,
        temps: inputs.len() as int,
        declared: 1,
        open: true,
    }
}

/// The cursor before instruction `n` of a function.
pub open spec fn cursor_at(f: FunctionView, n: int) -> Cursor
    decreases n,
{
    if n <= 0 {
        entered(f.inputs)
    } else {
        advance(cursor_at(f, n - 1), f.code[n - 1])
    }
}

/// The numbers of the values `xs`.
pub open spec fn pick(v: Seq<u32>, xs: Seq<VarId>) -> Seq<u32> {
    Seq::new(xs.len(), |k: int| v[xs[k].0 as int])
}

/// The creation of the blocks with indices from `from` up to `to`.
pub open spec fn creations(b: Seq<u32>, from: int, to: int) -> Seq<Emitted> {
    Seq::new(
        if to >= from {
            (to - from) as nat
        } else {
            0
        },
        |k: int| created(b[from + k]),
    )
}

/// The parameters of block `block`: one of each type, whose values take the
/// value indices from `first` on.
pub open spec fn parameters(block: u32, tys: Seq<Ty>, v: Seq<u32>, first: int) -> Seq<Emitted> {
    Seq::new(tys.len(), |k: int| param(block, native_type(tys[k]), v[first + k]))
}

/// The primitives of an instruction that computes values: each is applied to
/// the operands and defines the next value index.
pub open spec fn computations(i: InstView, v: Seq<u32>, first: int) -> Seq<Emitted> {
    Seq::new(
        natives(i).len(),
        |k: int| applied(natives(i)[k], pick(v, operands(i)), v[first + k]),
    )
}

/// What a fused branch condition computes before the branch.
pub open spec fn cond_events(c: Cond, v: Seq<u32>, temp: u32) -> Seq<Emitted> {
    match c {
        Cond::Var(_) => Seq::empty(),
        Cond::Op11(op, x) => seq![applied(native_op11(op), seq![v[x.0 as int]], temp)],
        Cond::Op21(op, x, y) => seq![
            applied(native_op21(op)[0], seq![v[x.0 as int], v[y.0 as int]], temp),
        ],
    }
}

/// The value that the branch tests.
pub open spec fn cond_value(c: Cond, v: Seq<u32>, temp: u32) -> u32 {
    match c {
        Cond::Var(x) => v[x.0 as int],
        _ => temp,
    }
}

/// The number that the builder gave to the block with index `id`. The
/// table of blocks begins with the native entry, so block `id` stands one
/// place further.
pub open spec fn block_at(b: Seq<u32>, id: int) -> u32 {
    b[id + 1]
}

/// What entering a function tells the builder.
///
/// The native entry takes the function's parameters and jumps at once to
/// block 0, passing them on. Block 0 is a block like any other, so that a
/// jump may name it.
pub open spec fn entry_events(inputs: Seq<Ty>, v: Seq<u32>, b: Seq<u32>, t: Seq<u32>) -> Seq<Emitted> {
    seq![created(b[0]), switched(b[0])] + parameters(b[0], inputs, t, 0) + seq![
        created(b[1]),
        jumped(b[1], t.subrange(0, inputs.len() as int)),
        switched(b[1]),
    ] + parameters(b[1], inputs, v, 0)
}

/// What lowering one instruction tells the builder.
///
/// `v` and `t` give the numbers of the values by value index and of the
/// temporaries in the order they are made; `b` gives the numbers of the
/// blocks, the native entry first and then the blocks by block index.
///
/// - A block that an instruction names is created first if it does not
///   exist yet.
/// - `Block` leaves an open block by a jump without arguments, moves to the
///   declared block and gives it its parameters.
/// - An immediate or an operation is one primitive for each value it
///   defines.
/// - `Goto`, `If` and `Ret` are one jump, one branch and one return. A fused
///   condition is computed into a temporary just before the branch.
pub open spec fn inst_events(i: InstView, c: Cursor, v: Seq<u32>, b: Seq<u32>, t: Seq<u32>) -> Seq<
    Emitted,
> {
    match i {
        InstView::Block(tys) => creations(b, c.created, c.declared + 2) + (if c.open {
            seq![jumped(block_at(b, c.declared), Seq::empty())]
        } else {
            Seq::empty()
        }) + seq![switched(block_at(b, c.declared))] + parameters(
            block_at(b, c.declared),
            tys,
            v,
            c.values,
        ),
        InstView::Goto(target, xs) => creations(b, c.created, target.0 + 2) + seq![
            jumped(block_at(b, target.0 as int), pick(v, xs)),
        ],
        InstView::If(cond, then_target, txs, else_target, exs) => creations(
            b,
            c.created,
            larger(then_target.0 as int, else_target.0 as int) + 2,
        ) + cond_events(cond, v, t[c.temps]) + seq![
            branched(
                cond_value(cond, v, t[c.temps]),
                block_at(b, then_target.0 as int),
                pick(v, txs),
                block_at(b, else_target.0 as int),
                pick(v, exs),
            ),
        ],
        InstView::Ret(xs) => seq![returned(pick(v, xs))],
        _ => computations(i, v, c.values),
    }
}

/// What lowering the first `n` instructions of a function tells the
/// builder, the entering of the function included.
pub open spec fn events_upto(f: FunctionView, n: int, v: Seq<u32>, b: Seq<u32>, t: Seq<u32>) -> Seq<
    Emitted,
>
    decreases n,
{
    if n <= 0 {
        entry_events(f.inputs, v, b, t)
    } else {
        events_upto(f, n - 1, v, b, t) + inst_events(f.code[n - 1], cursor_at(f, n - 1), v, b, t)
    }
}

/// What lowering a whole function tells the builder: its instructions in
/// order, a return without results where the stream ends in an open block,
/// and the sealing of all blocks.
pub open spec fn lowering(f: FunctionView, v: Seq<u32>, b: Seq<u32>, t: Seq<u32>) -> Seq<Emitted> {
    events_upto(f, f.code.len() as int, v, b, t) + (if cursor_at(f, f.code.len() as int).open {
        seq![returned(Seq::empty())]
    } else {
        Seq::empty()
    }) + seq![Emitted::SealAll]
}

/// Whether two tables hold the same numbers in their first `n` places.
pub open spec fn agree(a: Seq<u32>, b: Seq<u32>, n: int) -> bool {
    &&& n <= a.len()
    &&& n <= b.len()
    &&& forall|k: int| 0 <= k < n ==> a[k] == b[k]
}

/// The cursor never moves back.
pub proof fn lemma_advance_grows(c: Cursor, i: InstView)
    ensures
        c.values <= advance(c, i).values,
        c.created <= advance(c, i).created,
        c.temps <= advance(c, i).temps,
        c.declared <= advance(c, i).declared,
{
}

/// In a function that passes, the cursor before each instruction counts what
/// the scope there knows: one value for each variable, and the blocks
/// declared so far, all of which are created.
pub proof fn lemma_cursor_matches_scope(f: FunctionView, n: int)
    requires
        check(f) is Ok,
        0 <= n <= f.code.len(),
    ensures
        scope_at(f, n) is Ok,
        cursor_at(f, n).values == scope_at(f, n).unwrap().vars.len(),
        cursor_at(f, n).open == scope_at(f, n).unwrap().open,
        cursor_at(f, n).declared == scope_at(f, n).unwrap().blocks,
        1 <= cursor_at(f, n).declared < cursor_at(f, n).created,
        cursor_at(f, n).declared <= n + 1,
        0 <= cursor_at(f, n).temps,
    decreases n,
{
    lemma_passes_throughout(f, n);
    if n > 0 {
        lemma_cursor_matches_scope(f, n - 1);
        lemma_passes_throughout(f, n - 1);
        if !(f.code[n - 1] is Block) {
            lemma_natives_total(f.code[n - 1]);
        }
    }
}

/// What lowering an instruction tells the builder depends only on the
/// numbers of the values and blocks that exist once it is lowered.
pub proof fn lemma_inst_events_stable(
    i: InstView,
    c: Cursor,
    v1: Seq<u32>,
    b1: Seq<u32>,
    t1: Seq<u32>,
    v2: Seq<u32>,
    b2: Seq<u32>,
    t2: Seq<u32>,
    decl: Seq<Seq<Ty>>,
    outputs: Seq<Ty>,
    vars: Seq<Ty>,
)
    requires
        step(decl, outputs, Scope { vars, open: c.open, blocks: c.declared }, i) is Ok,
        vars.len() == c.values,
        0 <= c.created,
        0 <= c.temps,
        0 <= c.declared < c.created,
        agree(v1, v2, advance(c, i).values),
        agree(b1, b2, advance(c, i).created),
        agree(t1, t2, advance(c, i).temps),
    ensures
        inst_events(i, c, v1, b1, t1) == inst_events(i, c, v2, b2, t2),
{
    let c1 = advance(c, i);
    match i {
        InstView::Block(tys) => {
            assert(creations(b1, c.created, c.declared + 2) =~= creations(
                b2,
                c.created,
                c.declared + 2,
            ));
            assert(parameters(block_at(b1, c.declared), tys, v1, c.values) =~= parameters(
                block_at(b2, c.declared),
                tys,
                v2,
                c.values,
            ));
        },
        InstView::Goto(t, xs) => {
            lemma_args_typed(vars, xs, decl[t.0 as int]);
            assert(creations(b1, c.created, t.0 + 2) =~= creations(b2, c.created, t.0 + 2));
            assert(pick(v1, xs) =~= pick(v2, xs));
        },
        InstView::If(cond, t, txs, e, exs) => {
            lemma_cond_typed(vars, cond);
            lemma_args_typed(vars, txs, decl[t.0 as int]);
            lemma_args_typed(vars, exs, decl[e.0 as int]);
            let top = larger(t.0 as int, e.0 as int) + 2;
            assert(creations(b1, c.created, top) =~= creations(b2, c.created, top));
            assert(pick(v1, txs) =~= pick(v2, txs));
            assert(pick(v1, exs) =~= pick(v2, exs));
            match cond {
                Cond::Var(x) => {
                    assert(crate::typing::cond_uses(cond)[0] == x);
                },
                Cond::Op11(_, x) => {
                    assert(crate::typing::cond_uses(cond)[0] == x);
                },
                Cond::Op21(_, x, y) => {
                    assert(crate::typing::cond_uses(cond)[0] == x);
                    assert(crate::typing::cond_uses(cond)[1] == y);
                },
            }
        },
        InstView::Ret(xs) => {
            lemma_args_typed(vars, xs, outputs);
            assert(pick(v1, xs) =~= pick(v2, xs));
        },
        _ => {
            lemma_operands_from(vars, operands(i), operand_types(i), 0);
            match i {
                InstView::Op11(op, _) => crate::ir_op::lemma_op11_table(op),
                InstView::Op21(op, _, _) => crate::ir_op::lemma_op21_table(op),
                InstView::Op31(op, _, _, _) => crate::ir_op::lemma_op31_table(op),
                _ => {},
            }
            assert(pick(v1, operands(i)) =~= pick(v2, operands(i)));
            assert(computations(i, v1, c.values) =~= computations(i, v2, c.values));
        },
    }
}

/// What lowering the first `n` instructions of a function that passes tells
/// the builder depends only on the numbers of the values and blocks that
/// exist once they are lowered.
pub proof fn lemma_events_stable(
    f: FunctionView,
    n: int,
    v1: Seq<u32>,
    b1: Seq<u32>,
    t1: Seq<u32>,
    v2: Seq<u32>,
    b2: Seq<u32>,
    t2: Seq<u32>,
)
    requires
        check(f) is Ok,
        0 <= n <= f.code.len(),
        agree(v1, v2, cursor_at(f, n).values),
        agree(b1, b2, cursor_at(f, n).created),
        agree(t1, t2, cursor_at(f, n).temps),
    ensures
        events_upto(f, n, v1, b1, t1) == events_upto(f, n, v2, b2, t2),
    decreases n,
{
    let decl = declared_blocks(f.inputs, f.code);
    if n == 0 {
        let k = f.inputs.len() as int;
        assert(parameters(b1[0], f.inputs, t1, 0) =~= parameters(b2[0], f.inputs, t2, 0));
        assert(parameters(b1[1], f.inputs, v1, 0) =~= parameters(b2[1], f.inputs, v2, 0));
        assert(t1.subrange(0, k) =~= t2.subrange(0, k));
    } else {
        lemma_cursor_matches_scope(f, n - 1);
        lemma_passes_throughout(f, n - 1);
        lemma_advance_grows(cursor_at(f, n - 1), f.code[n - 1]);
        lemma_events_stable(f, n - 1, v1, b1, t1, v2, b2, t2);
        lemma_inst_events_stable(
            f.code[n - 1],
            cursor_at(f, n - 1),
            v1,
            b1,
            t1,
            v2,
            b2,
            t2,
            decl,
            f.outputs,
            scope_at(f, n - 1).unwrap().vars,
        );
    }
}

/// The number of values that the first `k` primitives of a list make.
pub open spec fn span(ops: Seq<NativeOp>, k: int) -> int
    decreases k,
{
    if k <= 0 {
        0
    } else {
        span(ops, k - 1) + width(ops[k - 1])
    }
}

/// The number of values that a fused branch condition makes: none where the
/// condition is a variable.
pub open spec fn cond_cost(c: Cond) -> int {
    match c {
        Cond::Var(_) => 0,
        Cond::Op11(op, _) => width(native_op11(op)) as int,
        Cond::Op21(op, _, _) => width(native_op21(op)[0]) as int,
    }
}

/// The number of values that the builder makes for an instruction.
pub open spec fn cost(i: InstView) -> int {
    match i {
        InstView::Block(tys) => tys.len() as int,
        InstView::If(cond, _, _, _, _) => cond_cost(cond),
        InstView::Goto(..) | InstView::Ret(..) => 0,
        _ => span(natives(i), natives(i).len() as int),
    }
}

/// The number of values that the builder has made before instruction `n`
/// of a function: the parameters of the native entry and of block 0, and
/// what each earlier instruction cost.
pub open spec fn made(f: FunctionView, n: int) -> int
    decreases n,
{
    if n <= 0 {
        2 * (f.inputs.len() as int)
    } else {
        made(f, n - 1) + cost(f.code[n - 1])
    }
}

/// The numbers of the values that an instruction defines, where the builder
/// has made `m` values before it: the builder numbers values in the order
/// it makes them, and a primitive gives the last of the values it makes.
pub open spec fn new_values(i: InstView, m: int) -> Seq<u32> {
    match i {
        InstView::Block(tys) => Seq::new(tys.len(), |k: int| (m + k) as u32),
        InstView::Goto(..) | InstView::If(..) | InstView::Ret(..) => Seq::empty(),
        _ => Seq::new(natives(i).len(), |k: int| (m + span(natives(i), k + 1) - 1) as u32),
    }
}

/// The numbers of the temporaries that an instruction makes, where the
/// builder has made `m` values before it.
pub open spec fn new_temps(i: InstView, m: int) -> Seq<u32> {
    match i {
        InstView::If(cond, _, _, _, _) => if cond is Var {
            Seq::empty()
        } else {
            seq![(m + cond_cost(cond) - 1) as u32]
        },
        _ => Seq::empty(),
    }
}

/// The numbers of the values defined before instruction `n` of a function.
/// The parameters of the native entry come first among all values, so the
/// inputs, which are the parameters of block 0, follow them.
pub open spec fn values_upto(f: FunctionView, n: int) -> Seq<u32>
    decreases n,
{
    if n <= 0 {
        Seq::new(f.inputs.len(), |k: int| (f.inputs.len() + k) as u32)
    } else {
        values_upto(f, n - 1) + new_values(f.code[n - 1], made(f, n - 1))
    }
}

/// The numbers of the temporaries made before instruction `n` of a
/// function.
pub open spec fn temps_upto(f: FunctionView, n: int) -> Seq<u32>
    decreases n,
{
    if n <= 0 {
        Seq::new(f.inputs.len(), |k: int| k as u32)
    } else {
        temps_upto(f, n - 1) + new_temps(f.code[n - 1], made(f, n - 1))
    }
}

/// The numbers of the blocks created before instruction `n` of a function:
/// the builder numbers blocks in the order it makes them.
pub open spec fn blocks_upto(f: FunctionView, n: int) -> Seq<u32> {
    Seq::new(cursor_at(f, n).created as nat, |j: int| j as u32)
}

/// What lowering a function tells a builder that was told nothing before,
/// with the numbers that such a builder gives.
pub open spec fn body(f: FunctionView) -> Seq<Emitted> {
    lowering(
        f,
        values_upto(f, f.code.len() as int),
        blocks_upto(f, f.code.len() as int),
        temps_upto(f, f.code.len() as int),
    )
}

/// Whether a function is within what the code generator can number: the
/// function, and each block, has no more parameters than a block can have,
/// and the values that lowering makes and the blocks that it can come to
/// create stay within the bound on numbers.
pub open spec fn within_limits(f: FunctionView) -> bool {
    &&& f.inputs.len() <= PARAMS_LIMIT
    &&& forall|i: int|
        0 <= i < f.code.len() ==> ((#[trigger] f.code[i]) matches InstView::Block(tys)
            ==> tys.len() <= PARAMS_LIMIT)
    &&& made(f, f.code.len() as int) <= NUMBER_LIMIT
    &&& f.code.len() + 2 < NUMBER_LIMIT
}

/// A list of primitives makes at least as many values as it has
/// primitives, and at most twice as many.
pub proof fn lemma_span_bounds(ops: Seq<NativeOp>, k: int)
    requires
        0 <= k,
    ensures
        k <= span(ops, k) <= 2 * k,
    decreases k,
{
    if k > 0 {
        lemma_span_bounds(ops, k - 1);
    }
}

/// More primitives make no fewer values.
pub proof fn lemma_span_grows(ops: Seq<NativeOp>, i: int, n: int)
    requires
        0 <= i <= n,
    ensures
        span(ops, i) <= span(ops, n),
    decreases n,
{
    if n > i {
        lemma_span_grows(ops, i, n - 1);
    }
}

/// No instruction unmakes a value.
pub proof fn lemma_cost_not_negative(i: InstView)
    ensures
        0 <= cost(i),
{
    lemma_span_bounds(natives(i), natives(i).len() as int);
}

/// The number of values made never falls along the stream.
pub proof fn lemma_made_grows(f: FunctionView, i: int, n: int)
    requires
        0 <= i <= n,
    ensures
        0 <= made(f, i) <= made(f, n),
    decreases n,
{
    if n > i {
        lemma_made_grows(f, i, n - 1);
        lemma_cost_not_negative(f.code[n - 1]);
    } else if n > 0 {
        lemma_made_grows(f, i - 1, n - 1);
        lemma_cost_not_negative(f.code[n - 1]);
    }
}

/// The number of values that a primitive makes.
pub fn width_of(op: NativeOp) -> (r: usize)
    ensures
        r == width(op),
{
    match op {
        NativeOp::IsplitHi => 2,
        _ => 1,
    }
}

/// The number of values that the builder makes for an instruction.
pub fn cost_of(inst: &Inst) -> (r: usize)
    requires
        inst@ matches InstView::Block(tys) ==> tys.len() <= PARAMS_LIMIT,
    ensures
        r == cost(inst@),
        r <= PARAMS_LIMIT,
{
    proof {
        reveal_with_fuel(span, 3);
    }
    match inst {
        Inst::Block(tys) => tys.len(),
        Inst::Goto(..) | Inst::Ret(..) => 0,
        Inst::If(cond, _, _, _, _) => match cond {
            Cond::Var(_) => 0,
            Cond::Op11(op, _) => width_of(lower_op11(*op)),
            Cond::Op21(op, _, _) => {
                let ops = lower_op21(*op);
                assert(ops@.len() >= 1);
                width_of(ops[0])
            },
        },
        Inst::ImmBool(_) | Inst::ImmI6(_) | Inst::ImmI64(_) => 1,
        Inst::Op11(op, _) => width_of(lower_op11(*op)),
        Inst::Op21(op, _, _) => {
            let ops = lower_op21(*op);
            assert(1 <= ops@.len() <= 2);
            if ops.len() == 1 {
                width_of(ops[0])
            } else {
                width_of(ops[0]) + width_of(ops[1])
            }
        },
        Inst::Op31(op, _, _, _) => width_of(lower_op31(*op)),
    }
}

/// Tells whether a function is within what the code generator can number.
pub fn fits(f: &Function) -> (r: bool)
    ensures
        r == within_limits(f@),
{
    if f.signature.inputs.len() > PARAMS_LIMIT || f.code.len() >= NUMBER_LIMIT - 2 {
        return false;
    }
    let n = f.code.len();
    let mut total: usize = 2 * f.signature.inputs.len();
    let mut i: usize = 0;
    while i < n
        invariant
            n == f.code@.len(),
            n == f@.code.len(),
            i <= n,
            f@.inputs.len() <= PARAMS_LIMIT,
            n + 2 < NUMBER_LIMIT,
            total == made(f@, i as int),
            total <= NUMBER_LIMIT,
            forall|j: int|
                0 <= j < i ==> ((#[trigger] f@.code[j]) matches InstView::Block(tys) ==> tys.len()
                    <= PARAMS_LIMIT),
        decreases n - i,
    {
        assert(f@.code[i as int] == f.code@[i as int]@);
        match &f.code[i] {
            Inst::Block(tys) => {
                if tys.len() > PARAMS_LIMIT {
                    return false;
                }
            },
            _ => {},
        }
        let c = cost_of(&f.code[i]);
        if c > NUMBER_LIMIT - total {
            proof {
                lemma_made_grows(f@, i + 1, n as int);
            }
            return false;
        }
        total += c;
        i += 1;
    }
    true
}

} // verus!
