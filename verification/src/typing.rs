//! Validation of a function before it is lowered: every operand is defined
//! and has the type its position asks for, every jump names a declared block
//! and passes what that block takes, and every return gives what the
//! signature promises.

use vstd::prelude::*;
use crate::bytecode::{BlockId, Cond, Function, FunctionView, Inst, InstView, VarId};
use crate::error::TypeError;
use crate::ir_ty::Ty;

verus! {

/// Holds one operand against the type its position asks for.
pub open spec fn check_operand(vars: Seq<Ty>, x: VarId, ty: Ty) -> Result<(), TypeError> {
    if x.0 >= vars.len() {
        Err(TypeError::UndeclaredVariable)
    } else if vars[x.0 as int] != ty {
        Err(TypeError::OperandTypeMismatch)
    } else {
        Ok(())
    }
}

/// Holds the operands from position `i` on against the types of their
/// positions, in order; the first defect is reported.
pub open spec fn check_operands_from(vars: Seq<Ty>, xs: Seq<VarId>, tys: Seq<Ty>, i: int) -> Result<
    (),
    TypeError,
>
    decreases xs.len() - i,
{
    if i < 0 || i >= xs.len() {
        Ok(())
    } else {
        match check_operand(vars, xs[i], tys[i]) {
            Err(e) => Err(e),
            Ok(()) => check_operands_from(vars, xs, tys, i + 1),
        }
    }
}

/// Holds an argument list against a parameter list: first the count, then
/// each argument in order.
pub open spec fn check_args(vars: Seq<Ty>, xs: Seq<VarId>, tys: Seq<Ty>) -> Result<(), TypeError> {
    if xs.len() != tys.len() {
        Err(TypeError::ArityMismatch)
    } else {
        check_operands_from(vars, xs, tys, 0)
    }
}

/// Whether every operand is defined and has the type of its position.
pub open spec fn operands_typed(vars: Seq<Ty>, xs: Seq<VarId>, tys: Seq<Ty>) -> bool {
    &&& xs.len() == tys.len()
    &&& forall|k: int|
        0 <= k < xs.len() ==> (#[trigger] xs[k]).0 < vars.len() && vars[xs[k].0 as int] == tys[k]
}

/// The parameter lists of the blocks that a function declares. Block 0 is
/// the entry and takes the function's inputs; each `Block` instruction
/// declares the next block.
pub open spec fn declared_blocks(inputs: Seq<Ty>, code: Seq<InstView>) -> Seq<Seq<Ty>>
    decreases code.len(),
{
    if code.len() == 0 {
        seq![inputs]
    } else {
        let before = declared_blocks(inputs, code.drop_last());
        match code.last() {
            InstView::Block(tys) => before.push(tys),
            _ => before,
        }
    }
}

/// Holds a jump against the block it names.
pub open spec fn check_jump(vars: Seq<Ty>, blocks: Seq<Seq<Ty>>, target: BlockId, xs: Seq<VarId>) -> Result<
    (),
    TypeError,
> {
    if target.0 >= blocks.len() {
        Err(TypeError::UndeclaredBlock)
    } else {
        check_args(vars, xs, blocks[target.0 as int])
    }
}

/// Holds a branch condition against the opcode tables: its operands first,
/// then the type of what it tests, which must be a truth value.
pub open spec fn check_cond(vars: Seq<Ty>, c: Cond) -> Result<(), TypeError> {
    match c {
        Cond::Var(x) => check_operand(vars, x, Ty::Bool),
        Cond::Op11(op, x) => match check_operands_from(vars, seq![x], op.spec_inputs(), 0) {
            Err(e) => Err(e),
            Ok(()) => if op.spec_outputs() == seq![Ty::Bool] {
                Ok(())
            } else {
                Err(TypeError::OperandTypeMismatch)
            },
        },
        Cond::Op21(op, x, y) => match check_operands_from(vars, seq![x, y], op.spec_inputs(), 0) {
            Err(e) => Err(e),
            Ok(()) => if op.spec_outputs() == seq![Ty::Bool] {
                Ok(())
            } else {
                Err(TypeError::OperandTypeMismatch)
            },
        },
    }
}

/// What is known at a point of the stream.
pub struct Scope {
    /// The types of the values defined so far, by value index.
    pub vars: Seq<Ty>,
    /// Whether a block is open, so that an instruction may stand here.
    pub open: bool,
    /// The number of blocks declared so far, the entry among them.
    pub blocks: int,
}

/// Holds one instruction against the scope before it and gives the scope
/// after it.
///
/// A `Block` that follows an open block is reached by falling through, which
/// passes no arguments. Any other instruction needs an open block.
pub open spec fn step(blocks: Seq<Seq<Ty>>, outputs: Seq<Ty>, s: Scope, i: InstView) -> Result<
    Scope,
    TypeError,
> {
    match i {
        InstView::Block(tys) => {
            if s.open && tys.len() != 0 {
                Err(TypeError::ArityMismatch)
            } else {
                Ok(Scope { vars: s.vars + tys, open: true, blocks: s.blocks + 1 })
            }
        },
        _ => if !s.open {
            Err(TypeError::UndeclaredBlock)
        } else {
            match i {
                InstView::Goto(t, xs) => match check_jump(s.vars, blocks, t, xs) {
                    Err(e) => Err(e),
                    Ok(()) => Ok(Scope { open: false, ..s }),
                },
                InstView::If(c, t, txs, e, exs) => match check_cond(s.vars, c) {
                    Err(e) => Err(e),
                    Ok(()) => match check_jump(s.vars, blocks, t, txs) {
                        Err(e) => Err(e),
                        Ok(()) => match check_jump(s.vars, blocks, e, exs) {
                            Err(e) => Err(e),
                            Ok(()) => Ok(Scope { open: false, ..s }),
                        },
                    },
                },
                InstView::Op11(op, x) => match check_operands_from(
                    s.vars,
                    seq![x],
                    op.spec_inputs(),
                    0,
                ) {
                    Err(e) => Err(e),
                    Ok(()) => Ok(Scope { vars: s.vars + op.spec_outputs(), ..s }),
                },
                InstView::Op21(op, x, y) => match check_operands_from(
                    s.vars,
                    seq![x, y],
                    op.spec_inputs(),
                    0,
                ) {
                    Err(e) => Err(e),
                    Ok(()) => Ok(Scope { vars: s.vars + op.spec_outputs(), ..s }),
                },
                InstView::Op31(op, x, y, z) => match check_operands_from(
                    s.vars,
                    seq![x, y, z],
                    op.spec_inputs(),
                    0,
                ) {
                    Err(e) => Err(e),
                    Ok(()) => Ok(Scope { vars: s.vars + op.spec_outputs(), ..s }),
                },
                InstView::Ret(xs) => match check_args(s.vars, xs, outputs) {
                    Err(e) => Err(e),
                    Ok(()) => Ok(Scope { open: false, ..s }),
                },
                _ => Ok(Scope { vars: s.vars + i.defs(), ..s }),
            }
        },
    }
}

/// The scope before instruction `n` of a function, or the first defect among
/// the instructions before it.
pub open spec fn scope_at(f: FunctionView, n: int) -> Result<Scope, TypeError>
    decreases n,
{
    if n <= 0 {
        Ok(Scope { vars: f.inputs, open: true, blocks: 1 })
    } else {
        match scope_at(f, n - 1) {
            Err(e) => Err(e),
            Ok(s) => step(declared_blocks(f.inputs, f.code), f.outputs, s, f.code[n - 1]),
        }
    }
}

/// The verdict on a whole function: the first defect in its stream, or, where
/// the stream ends in an open block, the defect of returning nothing from a
/// function that promises results.
pub open spec fn check(f: FunctionView) -> Result<(), TypeError> {
    match scope_at(f, f.code.len() as int) {
        Err(e) => Err(e),
        Ok(s) => if s.open && f.outputs.len() != 0 {
            Err(TypeError::ArityMismatch)
        } else {
            Ok(())
        },
    }
}

/// A defect, once found, is the verdict at every later point of the stream.
pub proof fn lemma_defect_stays(f: FunctionView, n: int, m: int)
    requires
        0 <= n <= m,
        scope_at(f, n) is Err,
    ensures
        scope_at(f, m) == scope_at(f, n),
    decreases m - n,
{
    if n < m {
        lemma_defect_stays(f, n, m - 1);
    }
}

/// The operands from position `i` on pass exactly where each of them is
/// defined and has the type of its position.
pub proof fn lemma_operands_from(vars: Seq<Ty>, xs: Seq<VarId>, tys: Seq<Ty>, i: int)
    requires
        0 <= i,
    ensures
        check_operands_from(vars, xs, tys, i) is Ok <==> forall|k: int|
            i <= k < xs.len() ==> (#[trigger] xs[k]).0 < vars.len() && vars[xs[k].0 as int]
                == tys[k],
    decreases xs.len() - i,
{
    if i < xs.len() {
        lemma_operands_from(vars, xs, tys, i + 1);
        if check_operands_from(vars, xs, tys, i) is Ok {
            assert forall|k: int| i <= k < xs.len() implies (#[trigger] xs[k]).0 < vars.len()
                && vars[xs[k].0 as int] == tys[k] by {
                if k > i {
                    assert(i + 1 <= k);
                }
            }
        }
    }
}

/// An argument list passes exactly where it has as many items as there are
/// parameters and each item is defined and has its parameter's type.
pub proof fn lemma_args_typed(vars: Seq<Ty>, xs: Seq<VarId>, tys: Seq<Ty>)
    ensures
        check_args(vars, xs, tys) is Ok <==> operands_typed(vars, xs, tys),
{
    lemma_operands_from(vars, xs, tys, 0);
}

/// What each parameter list of a vector of borrowed lists says.
pub open spec fn blocks_view(blocks: Seq<&Vec<Ty>>) -> Seq<Seq<Ty>> {
    Seq::new(blocks.len(), |i: int| blocks[i]@)
}

/// Holds operands against the types of their positions.
fn check_operands(vars: &Vec<Ty>, xs: &[VarId], tys: &[Ty]) -> (r: Result<(), TypeError>)
    requires
        xs@.len() == tys@.len(),
    ensures
        r == check_operands_from(vars@, xs@, tys@, 0),
{
    let n = xs.len();
    let mut i: usize = 0;
    while i < n
        invariant
            n == xs@.len(),
            n == tys@.len(),
            i <= n,
            check_operands_from(vars@, xs@, tys@, 0) == check_operands_from(
                vars@,
                xs@,
                tys@,
                i as int,
            ),
        decreases n - i,
    {
        let x = xs[i].0 as usize;
        if x >= vars.len() {
            return Err(TypeError::UndeclaredVariable);
        }
        if vars[x] != tys[i] {
            return Err(TypeError::OperandTypeMismatch);
        }
        i += 1;
    }
    Ok(())
}

/// Holds an argument list against a parameter list.
fn check_arguments(vars: &Vec<Ty>, xs: &[VarId], tys: &[Ty]) -> (r: Result<(), TypeError>)
    ensures
        r == check_args(vars@, xs@, tys@),
{
    if xs.len() != tys.len() {
        return Err(TypeError::ArityMismatch);
    }
    check_operands(vars, xs, tys)
}

/// Holds a jump against the block it names.
fn check_target(vars: &Vec<Ty>, blocks: &Vec<&Vec<Ty>>, target: BlockId, xs: &Vec<VarId>) -> (r:
    Result<(), TypeError>)
    ensures
        r == check_jump(vars@, blocks_view(blocks@), target, xs@),
{
    let t = target.0 as usize;
    if t >= blocks.len() {
        return Err(TypeError::UndeclaredBlock);
    }
    check_arguments(vars, xs.as_slice(), blocks[t].as_slice())
}

/// Whether an operation gives exactly one truth value.
fn gives_bool(outputs: &Vec<Ty>) -> (r: bool)
    ensures
        r == (outputs@ == seq![Ty::Bool]),
{
    if outputs.len() == 1 && outputs[0] == Ty::Bool {
        assert(outputs@ =~= seq![Ty::Bool]);
        true
    } else {
        false
    }
}

/// Holds a branch condition against the opcode tables.
fn check_condition(vars: &Vec<Ty>, c: Cond) -> (r: Result<(), TypeError>)
    ensures
        r == check_cond(vars@, c),
{
    match c {
        Cond::Var(x) => {
            let xs = [x];
            let tys = [Ty::Bool];
            assert(xs@ =~= seq![x]);
            assert(tys@ =~= seq![Ty::Bool]);
            assert(check_operands_from(vars@, xs@, tys@, 1) is Ok);
            check_operands(vars, xs.as_slice(), tys.as_slice())
        },
        Cond::Op11(op, x) => {
            let xs = [x];
            assert(xs@ =~= seq![x]);
            let (tys, outs) = op.types();
            match check_operands(vars, xs.as_slice(), tys.as_slice()) {
                Err(e) => Err(e),
                Ok(()) => if gives_bool(&outs) {
                    Ok(())
                } else {
                    Err(TypeError::OperandTypeMismatch)
                },
            }
        },
        Cond::Op21(op, x, y) => {
            let xs = [x, y];
            assert(xs@ =~= seq![x, y]);
            let (tys, outs) = op.types();
            match check_operands(vars, xs.as_slice(), tys.as_slice()) {
                Err(e) => Err(e),
                Ok(()) => if gives_bool(&outs) {
                    Ok(())
                } else {
                    Err(TypeError::OperandTypeMismatch)
                },
            }
        },
    }
}

/// Appends the types of `tys` to `vars`.
fn define(vars: &mut Vec<Ty>, tys: &[Ty])
    ensures
        final(vars)@ == old(vars)@ + tys@,
{
    let n = tys.len();
    let mut i: usize = 0;
    assert(vars@ =~= old(vars)@ + tys@.subrange(0, 0));
    while i < n
        invariant
            n == tys@.len(),
            i <= n,
            vars@ == old(vars)@ + tys@.subrange(0, i as int),
        decreases n - i,
    {
        vars.push(tys[i]);
        assert(vars@ =~= old(vars)@ + tys@.subrange(0, i + 1));
        i += 1;
    }
    assert(tys@.subrange(0, n as int) =~= tys@);
}

/// Holds one instruction against what is known before it, and records what
/// it defines and whether it leaves a block open.
fn check_inst(
    blocks: &Vec<&Vec<Ty>>,
    outputs: &Vec<Ty>,
    vars: &mut Vec<Ty>,
    open: &mut bool,
    inst: &Inst,
    Ghost(count): Ghost<int>,
) -> (r: Result<(), TypeError>)
    ensures
        match step(
            blocks_view(blocks@),
            outputs@,
            Scope { vars: old(vars)@, open: *old(open), blocks: count },
            inst@,
        ) {
            Ok(s) => r is Ok && final(vars)@ == s.vars && *final(open) == s.open,
            Err(e) => r == Err::<(), TypeError>(e),
        },
{
    match inst {
        Inst::Block(tys) => {
            if *open && tys.len() != 0 {
                return Err(TypeError::ArityMismatch);
            }
            define(vars, tys.as_slice());
            *open = true;
            Ok(())
        },
        _ => {
            if !*open {
                return Err(TypeError::UndeclaredBlock);
            }
            match inst {
                Inst::Goto(t, xs) => {
                    check_target(vars, blocks, *t, xs)?;
                    *open = false;
                },
                Inst::If(c, t, txs, e, exs) => {
                    check_condition(vars, *c)?;
                    check_target(vars, blocks, *t, txs)?;
                    check_target(vars, blocks, *e, exs)?;
                    *open = false;
                },
                Inst::ImmBool(_) => {
                    vars.push(Ty::Bool);
                    assert(vars@ =~= old(vars)@ + seq![Ty::Bool]);
                },
                Inst::ImmI6(_) => {
                    vars.push(Ty::I6);
                    assert(vars@ =~= old(vars)@ + seq![Ty::I6]);
                },
                Inst::ImmI64(_) => {
                    vars.push(Ty::I64);
                    assert(vars@ =~= old(vars)@ + seq![Ty::I64]);
                },
                Inst::Op11(op, x) => {
                    let xs = [*x];
                    assert(xs@ =~= seq![*x]);
                    let (tys, outs) = op.types();
                    check_operands(vars, xs.as_slice(), tys.as_slice())?;
                    define(vars, outs.as_slice());
                },
                Inst::Op21(op, x, y) => {
                    let xs = [*x, *y];
                    assert(xs@ =~= seq![*x, *y]);
                    let (tys, outs) = op.types();
                    check_operands(vars, xs.as_slice(), tys.as_slice())?;
                    define(vars, outs.as_slice());
                },
                Inst::Op31(op, x, y, z) => {
                    let xs = [*x, *y, *z];
                    assert(xs@ =~= seq![*x, *y, *z]);
                    let (tys, outs) = op.types();
                    check_operands(vars, xs.as_slice(), tys.as_slice())?;
                    define(vars, outs.as_slice());
                },
                Inst::Ret(xs) => {
                    check_arguments(vars, xs.as_slice(), outputs.as_slice())?;
                    *open = false;
                },
                Inst::Block(_) => {},
            }
            Ok(())
        },
    }
}

/// The parameter lists of the blocks that `f` declares, the entry first.
fn collect_blocks<'a>(f: &'a Function) -> (blocks: Vec<&'a Vec<Ty>>)
    ensures
        blocks_view(blocks@) == declared_blocks(f@.inputs, f@.code),
{
    let mut blocks: Vec<&'a Vec<Ty>> = Vec::new();
    blocks.push(&f.signature.inputs);
    let n = f.code.len();
    let mut i: usize = 0;
    assert(f@.code.subrange(0, 0) =~= Seq::<InstView>::empty());
    assert(blocks_view(blocks@) =~= seq![f@.inputs]);
    while i < n
        invariant
            n == f.code@.len(),
            n == f@.code.len(),
            i <= n,
            blocks_view(blocks@) == declared_blocks(f@.inputs, f@.code.subrange(0, i as int)),
        decreases n - i,
    {
        let ghost before = blocks@;
        proof {
            let next = f@.code.subrange(0, i + 1);
            assert(next.drop_last() =~= f@.code.subrange(0, i as int));
            assert(next.last() == f.code@[i as int]@);
        }
        match &f.code[i] {
            Inst::Block(tys) => {
                blocks.push(tys);
                assert(blocks_view(blocks@) =~= blocks_view(before).push(tys@));
            },
            _ => {},
        }
        i += 1;
    }
    assert(f@.code.subrange(0, n as int) =~= f@.code);
    blocks
}

/// Validates a function. The verdict is that of [`check`]: the first defect
/// in stream order, or none; and there is none exactly where the function is
/// in order.
pub fn check_function(f: &Function) -> (r: Result<(), TypeError>)
    ensures
        r == check(f@),
        r is Ok <==> valid(f@),
{
    proof {
        lemma_check_is_validity(f@);
    }
    let blocks = collect_blocks(f);
    let mut vars: Vec<Ty> = Vec::new();
    define(&mut vars, f.signature.inputs.as_slice());
    assert(vars@ =~= f@.inputs);
    let mut open = true;
    let ghost mut count: int = 1;
    let n = f.code.len();
    let mut i: usize = 0;
    while i < n
        invariant
            n == f.code@.len(),
            n == f@.code.len(),
            i <= n,
            blocks_view(blocks@) == declared_blocks(f@.inputs, f@.code),
            check(f@) is Ok <==> valid(f@),
            scope_at(f@, i as int) == Ok::<Scope, TypeError>(
                Scope { vars: vars@, open: open, blocks: count },
            ),
        decreases n - i,
    {
        assert(f@.code[i as int] == f.code@[i as int]@);
        match check_inst(&blocks, &f.signature.outputs, &mut vars, &mut open, &f.code[i], Ghost(count)) {
            Ok(()) => {},
            Err(e) => {
                proof {
                    lemma_defect_stays(f@, i + 1, n as int);
                }
                return Err(e);
            },
        }
        proof {
            count = scope_at(f@, i + 1).unwrap().blocks;
        }
        i += 1;
    }
    if open && f.signature.outputs.len() != 0 {
        Err(TypeError::ArityMismatch)
    } else {
        Ok(())
    }
}

/// The types of the values defined before instruction `n`: the function's
/// inputs, which take the value indices from 0, and after them what each
/// earlier instruction defines, in stream order.
pub open spec fn defined_before(f: FunctionView, n: int) -> Seq<Ty>
    decreases n,
{
    if n <= 0 {
        f.inputs
    } else {
        defined_before(f, n - 1) + f.code[n - 1].defs()
    }
}

/// The operands of a branch condition, in order.
pub open spec fn cond_uses(c: Cond) -> Seq<VarId> {
    match c {
        Cond::Var(x) => seq![x],
        Cond::Op11(_, x) => seq![x],
        Cond::Op21(_, x, y) => seq![x, y],
    }
}

/// The types that the operands of a branch condition must have.
pub open spec fn cond_inputs(c: Cond) -> Seq<Ty> {
    match c {
        Cond::Var(_) => seq![Ty::Bool],
        Cond::Op11(op, _) => op.spec_inputs(),
        Cond::Op21(op, _, _) => op.spec_inputs(),
    }
}

/// The values that an instruction refers to.
pub open spec fn uses(i: InstView) -> Seq<VarId> {
    match i {
        InstView::Goto(_, xs) => xs,
        InstView::If(c, _, txs, _, exs) => cond_uses(c) + txs + exs,
        InstView::Op11(_, x) => seq![x],
        InstView::Op21(_, x, y) => seq![x, y],
        InstView::Op31(_, x, y, z) => seq![x, y, z],
        InstView::Ret(xs) => xs,
        _ => Seq::empty(),
    }
}

/// Where a function passes, every point of its stream has a scope, each
/// instruction passes against the scope before it, and that scope knows
/// exactly the values defined so far.
pub proof fn lemma_passes_throughout(f: FunctionView, n: int)
    requires
        check(f) is Ok,
        0 <= n <= f.code.len(),
    ensures
        scope_at(f, n) is Ok,
        scope_at(f, n).unwrap().vars == defined_before(f, n),
        n < f.code.len() ==> step(
            declared_blocks(f.inputs, f.code),
            f.outputs,
            scope_at(f, n).unwrap(),
            f.code[n],
        ) is Ok,
    decreases n,
{
    if scope_at(f, n) is Err {
        lemma_defect_stays(f, n, f.code.len() as int);
    }
    if n < f.code.len() {
        if scope_at(f, n + 1) is Err {
            lemma_defect_stays(f, n + 1, f.code.len() as int);
        }
    }
    if n > 0 {
        lemma_passes_throughout(f, n - 1);
    }
}

/// A branch condition passes exactly where its operands are defined and
/// typed as its operation asks and the operation gives a truth value.
pub proof fn lemma_cond_typed(vars: Seq<Ty>, c: Cond)
    ensures
        check_cond(vars, c) is Ok ==> operands_typed(vars, cond_uses(c), cond_inputs(c)),
{
    lemma_operands_from(vars, cond_uses(c), cond_inputs(c), 0);
    match c {
        Cond::Var(x) => {
            assert(check_operands_from(vars, seq![x], seq![Ty::Bool], 1) is Ok);
        },
        Cond::Op11(op, x) => {
            crate::ir_op::lemma_op11_table(op);
        },
        Cond::Op21(op, x, y) => {
            crate::ir_op::lemma_op21_table(op);
        },
    }
}

/// No use before definition: in a function that passes, every value that an
/// instruction refers to has an index below the number of values defined
/// before that instruction, the function's inputs counted first.
pub proof fn lemma_no_use_before_definition(f: FunctionView, n: int, k: int)
    requires
        check(f) is Ok,
        0 <= n < f.code.len(),
        0 <= k < uses(f.code[n]).len(),
    ensures
        uses(f.code[n])[k].0 < defined_before(f, n).len(),
        defined_before(f, 0) == f.inputs,
{
    lemma_passes_throughout(f, n);
    let vars = defined_before(f, n);
    let blocks = declared_blocks(f.inputs, f.code);
    match f.code[n] {
        InstView::Goto(t, xs) => {
            lemma_args_typed(vars, xs, blocks[t.0 as int]);
        },
        InstView::If(c, t, txs, e, exs) => {
            lemma_cond_typed(vars, c);
            lemma_args_typed(vars, txs, blocks[t.0 as int]);
            lemma_args_typed(vars, exs, blocks[e.0 as int]);
            let cu = cond_uses(c);
            if k < cu.len() {
                assert(uses(f.code[n])[k] == cu[k]);
            } else if k < cu.len() + txs.len() {
                assert(uses(f.code[n])[k] == txs[k - cu.len()]);
            } else {
                assert(uses(f.code[n])[k] == exs[k - cu.len() - txs.len()]);
            }
        },
        InstView::Op11(op, x) => {
            lemma_operands_from(vars, seq![x], op.spec_inputs(), 0);
        },
        InstView::Op21(op, x, y) => {
            lemma_operands_from(vars, seq![x, y], op.spec_inputs(), 0);
        },
        InstView::Op31(op, x, y, z) => {
            lemma_operands_from(vars, seq![x, y, z], op.spec_inputs(), 0);
        },
        InstView::Ret(xs) => {
            lemma_args_typed(vars, xs, f.outputs);
        },
        _ => {},
    }
}

/// The operation that an instruction applies, as its operands and the types
/// that the opcode tables ask of them, for the instructions that apply one.
pub open spec fn applied(i: InstView) -> Option<(Seq<VarId>, Seq<Ty>)> {
    match i {
        InstView::Op11(op, x) => Some((seq![x], op.spec_inputs())),
        InstView::Op21(op, x, y) => Some((seq![x, y], op.spec_inputs())),
        InstView::Op31(op, x, y, z) => Some((seq![x, y, z], op.spec_inputs())),
        InstView::If(c, _, _, _, _) => Some((cond_uses(c), cond_inputs(c))),
        _ => None,
    }
}

/// Type soundness: in a function that passes, the operands of every
/// operation are defined and have exactly the types of the operation's
/// static input vector. A function in which one operand has another type
/// therefore does not pass.
pub proof fn lemma_operations_well_typed(f: FunctionView, n: int)
    requires
        check(f) is Ok,
        0 <= n < f.code.len(),
        applied(f.code[n]) is Some,
    ensures
        operands_typed(defined_before(f, n), applied(f.code[n]).unwrap().0, applied(
            f.code[n],
        ).unwrap().1),
{
    lemma_passes_throughout(f, n);
    let vars = defined_before(f, n);
    match f.code[n] {
        InstView::If(c, t, txs, e, exs) => {
            lemma_cond_typed(vars, c);
        },
        InstView::Op11(op, x) => {
            crate::ir_op::lemma_op11_table(op);
            lemma_operands_from(vars, seq![x], op.spec_inputs(), 0);
        },
        InstView::Op21(op, x, y) => {
            crate::ir_op::lemma_op21_table(op);
            lemma_operands_from(vars, seq![x, y], op.spec_inputs(), 0);
        },
        InstView::Op31(op, x, y, z) => {
            crate::ir_op::lemma_op31_table(op);
            lemma_operands_from(vars, seq![x, y, z], op.spec_inputs(), 0);
        },
        _ => {},
    }
}

/// The jumps that an instruction makes: each target with the arguments
/// passed to it.
pub open spec fn jumps(i: InstView) -> Seq<(BlockId, Seq<VarId>)> {
    match i {
        InstView::Goto(t, xs) => seq![(t, xs)],
        InstView::If(_, t, txs, e, exs) => seq![(t, txs), (e, exs)],
        _ => Seq::empty(),
    }
}

/// Arity and argument types: in a function that passes, every jump names a
/// declared block and passes exactly as many arguments as that block has
/// parameters, each of its parameter's type; and every return gives exactly
/// the results that the signature declares, each of its declared type.
pub proof fn lemma_jumps_match_targets(f: FunctionView, n: int, j: int)
    requires
        check(f) is Ok,
        0 <= n < f.code.len(),
    ensures
        0 <= j < jumps(f.code[n]).len() ==> jumps(f.code[n])[j].0.0 < declared_blocks(
            f.inputs,
            f.code,
        ).len() && operands_typed(
            defined_before(f, n),
            jumps(f.code[n])[j].1,
            declared_blocks(f.inputs, f.code)[jumps(f.code[n])[j].0.0 as int],
        ),
        f.code[n] matches InstView::Ret(xs) ==> operands_typed(defined_before(f, n), xs, f.outputs),
{
    lemma_passes_throughout(f, n);
    let vars = defined_before(f, n);
    let blocks = declared_blocks(f.inputs, f.code);
    match f.code[n] {
        InstView::Goto(t, xs) => {
            lemma_args_typed(vars, xs, blocks[t.0 as int]);
        },
        InstView::If(c, t, txs, e, exs) => {
            lemma_args_typed(vars, txs, blocks[t.0 as int]);
            lemma_args_typed(vars, exs, blocks[e.0 as int]);
        },
        InstView::Ret(xs) => {
            lemma_args_typed(vars, xs, f.outputs);
        },
        _ => {},
    }
}

/// Whether a block is open before instruction `n`: at the start of the
/// stream, and behind every instruction but a jump, a branch or a return.
pub open spec fn open_before(f: FunctionView, n: int) -> bool {
    n <= 0 || !(f.code[n - 1] is Goto || f.code[n - 1] is If || f.code[n - 1] is Ret)
}

/// Whether a jump names a declared block and passes what that block takes.
pub open spec fn jump_typed(vars: Seq<Ty>, blocks: Seq<Seq<Ty>>, target: BlockId, xs: Seq<VarId>) -> bool {
    target.0 < blocks.len() && operands_typed(vars, xs, blocks[target.0 as int])
}

/// Whether a branch condition tests a truth value that is well typed.
pub open spec fn cond_typed(vars: Seq<Ty>, c: Cond) -> bool {
    &&& operands_typed(vars, cond_uses(c), cond_inputs(c))
    &&& match c {
        Cond::Var(_) => true,
        Cond::Op11(op, _) => op.spec_outputs() == seq![Ty::Bool],
        Cond::Op21(op, _, _) => op.spec_outputs() == seq![Ty::Bool],
    }
}

/// Whether instruction `n` of a function is in order, said without
/// reference to the instructions before it but through what they define and
/// whether the last of them left a block open.
pub open spec fn inst_valid(f: FunctionView, n: int) -> bool {
    let vars = defined_before(f, n);
    let blocks = declared_blocks(f.inputs, f.code);
    match f.code[n] {
        InstView::Block(tys) => open_before(f, n) ==> tys.len() == 0,
        InstView::Goto(t, xs) => open_before(f, n) && jump_typed(vars, blocks, t, xs),
        InstView::If(c, t, txs, e, exs) => open_before(f, n) && cond_typed(vars, c) && jump_typed(
            vars,
            blocks,
            t,
            txs,
        ) && jump_typed(vars, blocks, e, exs),
        InstView::Op11(op, x) => open_before(f, n) && operands_typed(
            vars,
            seq![x],
            op.spec_inputs(),
        ),
        InstView::Op21(op, x, y) => open_before(f, n) && operands_typed(
            vars,
            seq![x, y],
            op.spec_inputs(),
        ),
        InstView::Op31(op, x, y, z) => open_before(f, n) && operands_typed(
            vars,
            seq![x, y, z],
            op.spec_inputs(),
        ),
        InstView::Ret(xs) => open_before(f, n) && operands_typed(vars, xs, f.outputs),
        _ => open_before(f, n),
    }
}

/// Whether a function is in order: each of its instructions is, and a
/// stream that ends in an open block belongs to a function without results.
pub open spec fn valid(f: FunctionView) -> bool {
    &&& forall|n: int| 0 <= n < f.code.len() ==> inst_valid(f, n)
    &&& open_before(f, f.code.len() as int) ==> f.outputs.len() == 0
}

/// A branch condition passes exactly where it is well typed.
pub proof fn lemma_cond_checked(vars: Seq<Ty>, c: Cond)
    ensures
        check_cond(vars, c) is Ok <==> cond_typed(vars, c),
{
    lemma_operands_from(vars, cond_uses(c), cond_inputs(c), 0);
    match c {
        Cond::Var(x) => {
            assert(check_operands_from(vars, seq![x], seq![Ty::Bool], 1) is Ok);
            assert(cond_uses(c)[0] == x);
            assert(cond_inputs(c)[0] == Ty::Bool);
        },
        Cond::Op11(op, x) => {
            crate::ir_op::lemma_op11_table(op);
        },
        Cond::Op21(op, x, y) => {
            crate::ir_op::lemma_op21_table(op);
        },
    }
}

/// An instruction passes against a scope exactly where the scope is open,
/// or the instruction a `Block` without parameters, and what it names is
/// well typed.
proof fn lemma_step_checked(f: FunctionView, n: int, s: Scope)
    requires
        0 <= n < f.code.len(),
        s.vars == defined_before(f, n),
        s.open == open_before(f, n),
    ensures
        step(declared_blocks(f.inputs, f.code), f.outputs, s, f.code[n]) is Ok <==> inst_valid(
            f,
            n,
        ),
        step(declared_blocks(f.inputs, f.code), f.outputs, s, f.code[n]) matches Ok(t)
            ==> t.vars == defined_before(f, n + 1) && t.open == open_before(f, n + 1),
{
    let blocks = declared_blocks(f.inputs, f.code);
    match f.code[n] {
        InstView::Goto(t, xs) => {
            if t.0 < blocks.len() {
                lemma_args_typed(s.vars, xs, blocks[t.0 as int]);
            }
        },
        InstView::If(c, t, txs, e, exs) => {
            lemma_cond_checked(s.vars, c);
            if t.0 < blocks.len() {
                lemma_args_typed(s.vars, txs, blocks[t.0 as int]);
            }
            if e.0 < blocks.len() {
                lemma_args_typed(s.vars, exs, blocks[e.0 as int]);
            }
        },
        InstView::Op11(op, x) => {
            crate::ir_op::lemma_op11_table(op);
            lemma_operands_from(s.vars, seq![x], op.spec_inputs(), 0);
        },
        InstView::Op21(op, x, y) => {
            crate::ir_op::lemma_op21_table(op);
            lemma_operands_from(s.vars, seq![x, y], op.spec_inputs(), 0);
        },
        InstView::Op31(op, x, y, z) => {
            crate::ir_op::lemma_op31_table(op);
            lemma_operands_from(s.vars, seq![x, y, z], op.spec_inputs(), 0);
        },
        InstView::Ret(xs) => {
            lemma_args_typed(s.vars, xs, f.outputs);
        },
        _ => {},
    }
}

/// The scope before instruction `n` exists exactly where every instruction
/// before it is in order, and then it knows the values defined so far and
/// whether the last instruction left a block open.
proof fn lemma_scope_checked(f: FunctionView, n: int)
    requires
        0 <= n <= f.code.len(),
    ensures
        scope_at(f, n) is Ok <==> forall|k: int| 0 <= k < n ==> inst_valid(f, k),
        scope_at(f, n) matches Ok(s) ==> s.vars == defined_before(f, n) && s.open == open_before(
            f,
            n,
        ),
    decreases n,
{
    if n > 0 {
        lemma_scope_checked(f, n - 1);
        match scope_at(f, n - 1) {
            Ok(s) => {
                lemma_step_checked(f, n - 1, s);
            },
            Err(_) => {},
        }
    }
}

/// A function passes exactly where it is in order.
pub proof fn lemma_check_is_validity(f: FunctionView)
    ensures
        check(f) is Ok <==> valid(f),
{
    lemma_scope_checked(f, f.code.len() as int);
}

} // verus!
