//! Programs held in memory: functions, their signatures, and instruction
//! streams that describe a control-flow graph whose blocks take parameters.

use vstd::prelude::*;
use crate::ir_op::{Op11, Op21, Op31};
use crate::ir_ty::Ty;
use crate::u6::u6;

verus! {

/// The index of a value within a function. Values are numbered in the order
/// in which the stream defines them; the function's parameters come first.
#[derive(Clone, Copy, Debug, PartialEq, Eq, Structural)]
pub struct VarId(pub u16);

/// The index of a block within a function. Block 0 is the entry, formed from
/// the function's parameters; each `Block` instruction declares the next one.
#[derive(Clone, Copy, Debug, PartialEq, Eq, Structural)]
pub struct BlockId(pub u16);

/// What a conditional branch tests.
#[derive(Clone, Copy, Debug, PartialEq, Eq, Structural)]
pub enum Cond {
    /// A truth value.
    Var(VarId),
    /// A test of one operand, fused into the branch.
    Op11(Op11, VarId),
    /// A comparison of two operands, fused into the branch.
    Op21(Op21, VarId, VarId),
}

/// One instruction.
#[derive(Clone, Debug, PartialEq, Eq)]
pub enum Inst {
    /// Opens the next block. Its parameters are new values of these types.
    Block(Vec<Ty>),
    /// Jumps to a block, passing arguments for its parameters.
    Goto(BlockId, Vec<VarId>),
    /// Jumps to the first block where the condition holds, else to the second,
    /// passing each its own arguments.
    If(Cond, BlockId, Vec<VarId>, BlockId, Vec<VarId>),
    /// Defines a truth value.
    ImmBool(bool),
    /// Defines a six-bit integer.
    ImmI6(u6),
    /// Defines a 64-bit integer.
    ImmI64(u64),
    /// Applies an operation of one operand.
    Op11(Op11, VarId),
    /// Applies an operation of two operands.
    Op21(Op21, VarId, VarId),
    /// Applies an operation of three operands.
    Op31(Op31, VarId, VarId, VarId),
    /// Leaves the function with these results.
    Ret(Vec<VarId>),
}

/// What an instruction says, as a mathematical value.
pub enum InstView {
    Block(Seq<Ty>),
    Goto(BlockId, Seq<VarId>),
    If(Cond, BlockId, Seq<VarId>, BlockId, Seq<VarId>),
    ImmBool(bool),
    ImmI6(u8),
    ImmI64(u64),
    Op11(Op11, VarId),
    Op21(Op21, VarId, VarId),
    Op31(Op31, VarId, VarId, VarId),
    Ret(Seq<VarId>),
}

impl View for Inst {
    type V = InstView;

    open spec fn view(&self) -> InstView {
        match *self {
            Inst::Block(tys) => InstView::Block(tys@),
            Inst::Goto(t, args) => InstView::Goto(t, args@),
            Inst::If(c, t, targs, e, eargs) => InstView::If(c, t, targs@, e, eargs@),
            Inst::ImmBool(b) => InstView::ImmBool(b),
            Inst::ImmI6(x) => InstView::ImmI6(x@),
            Inst::ImmI64(x) => InstView::ImmI64(x),
            Inst::Op11(op, x) => InstView::Op11(op, x),
            Inst::Op21(op, x, y) => InstView::Op21(op, x, y),
            Inst::Op31(op, x, y, z) => InstView::Op31(op, x, y, z),
            Inst::Ret(args) => InstView::Ret(args@),
        }
    }
}

/// The types that a function takes and returns.
#[derive(Clone, Debug, PartialEq, Eq)]
pub struct Signature {
    pub inputs: Vec<Ty>,
    pub outputs: Vec<Ty>,
}

/// A function: its name, its signature and its instruction stream.
#[derive(Clone, Debug, PartialEq, Eq)]
pub struct Function {
    pub name: String,
    pub signature: Signature,
    pub code: Vec<Inst>,
}

/// What a function says, as a mathematical value.
pub struct FunctionView {
    pub name: Seq<char>,
    pub inputs: Seq<Ty>,
    pub outputs: Seq<Ty>,
    pub code: Seq<InstView>,
}

/// What each instruction of a stream says.
pub open spec fn code_view(code: Seq<Inst>) -> Seq<InstView> {
    Seq::new(code.len(), |i: int| code[i]@)
}

impl View for Function {
    type V = FunctionView;

    open spec fn view(&self) -> FunctionView {
        FunctionView {
            name: self.name@,
            inputs: self.signature.inputs@,
            outputs: self.signature.outputs@,
            code: code_view(self.code@),
        }
    }
}

/// A program: its functions, in order.
#[derive(Clone, Debug, PartialEq, Eq)]
pub struct Program {
    pub functions: Vec<Function>,
}

impl View for Program {
    type V = Seq<FunctionView>;

    open spec fn view(&self) -> Seq<FunctionView> {
        Seq::new(self.functions@.len(), |i: int| self.functions@[i]@)
    }
}

impl InstView {
    /// The types of the values that the instruction defines, in order.
    pub open spec fn defs(self) -> Seq<Ty> {
        match self {
            InstView::Block(tys) => tys,
            InstView::ImmBool(_) => seq![Ty::Bool],
            InstView::ImmI6(_) => seq![Ty::I6],
            InstView::ImmI64(_) => seq![Ty::I64],
            InstView::Op11(op, _) => op.spec_outputs(),
            InstView::Op21(op, _, _) => op.spec_outputs(),
            InstView::Op31(op, _, _, _) => op.spec_outputs(),
            InstView::Goto(..) | InstView::If(..) | InstView::Ret(..) => Seq::empty(),
        }
    }
}

} // verus!
