//! The native side of lowering, as plain values: register types, the
//! catalogue of primitives that the code generator is asked for, a record
//! of what a function builder has been told so far, and a record of what a
//! module has been asked.

use vstd::prelude::*;
use crate::codegen::{Convention, ModuleFailure, Visibility};
use crate::ir_ty::Ty;

verus! {

/// A native register type.
#[derive(Clone, Copy, Debug, PartialEq, Eq, Structural)]
pub enum NativeTy {
    /// Eight bits. Holds a truth value as 0 or 1, and a six-bit integer with
    /// its two top bits unspecified.
    I8,
    /// Sixty-four bits.
    I64,
    /// One hundred and twenty-eight bits.
    I128,
}

impl NativeTy {
    /// The width of the type in bits.
    pub open spec fn bits(self) -> int {
        match self {
            NativeTy::I8 => 8,
            NativeTy::I64 => 64,
            NativeTy::I128 => 128,
        }
    }
}

/// The native register type of a value type. References are as wide as an
/// address.
pub open spec fn native_type(ty: Ty) -> NativeTy {
    match ty {
        Ty::Bool => NativeTy::I8,
        Ty::I6 => NativeTy::I8,
        Ty::I64 => NativeTy::I64,
        Ty::I128 => NativeTy::I128,
        Ty::FunRef => NativeTy::I64,
        Ty::Ref => NativeTy::I64,
    }
}

/// The native register types of a list of value types.
pub open spec fn native_types(tys: Seq<Ty>) -> Seq<NativeTy> {
    Seq::new(tys.len(), |i: int| native_type(tys[i]))
}

/// Maps a value type to the native register type that holds it.
pub fn compile_valtype(ty: Ty) -> (r: NativeTy)
    ensures
        r == native_type(ty),
{
    match ty {
        Ty::Bool => NativeTy::I8,
        Ty::I6 => NativeTy::I8,
        Ty::I64 => NativeTy::I64,
        Ty::I128 => NativeTy::I128,
        Ty::FunRef => NativeTy::I64,
        Ty::Ref => NativeTy::I64,
    }
}

/// The condition of an integer comparison.
#[derive(Clone, Copy, Debug, PartialEq, Eq, Structural)]
pub enum Compare {
    Equal,
    NotEqual,
    SignedLessThan,
    SignedGreaterThanOrEqual,
    SignedGreaterThan,
    SignedLessThanOrEqual,
    UnsignedLessThan,
    UnsignedGreaterThanOrEqual,
    UnsignedGreaterThan,
    UnsignedLessThanOrEqual,
}

/// A native primitive that gives one value.
#[derive(Clone, Copy, Debug, PartialEq, Eq, Structural)]
pub enum NativeOp {
    /// A constant of the given type.
    Iconst(NativeTy, i64),
    /// Exclusive or with a constant.
    BxorImm(i64),
    /// Comparison with a constant.
    IcmpImm(Compare, i64),
    /// The low bits of a wider integer, as the given type.
    Ireduce(NativeTy),
    /// The high half of an integer.
    IsplitHi,
    Bnot,
    Iabs,
    Ineg,
    Clz,
    Ctz,
    Popcnt,
    Bitrev,
    Bswap,
    Band,
    Bor,
    Bxor,
    Iadd,
    Isub,
    Imul,
    Smulhi,
    Umulhi,
    Smax,
    Umax,
    Smin,
    Umin,
    /// Rotations and shifts read the amount modulo the width of the first
    /// operand, so only the low six bits of the amount matter at 64 bits.
    Rotl,
    Rotr,
    Ishl,
    Sshr,
    Ushr,
    /// Comparison of two integers; gives 0 or 1 in eight bits.
    Icmp(Compare),
    /// The second operand where the first is not zero, else the third.
    Select,
}

/// The type of the value that a primitive gives for operands of the given
/// types, where the primitive takes such operands.
pub open spec fn result_type(op: NativeOp, args: Seq<NativeTy>) -> Option<NativeTy> {
    match op {
        NativeOp::Iconst(ty, _) => if args.len() == 0 && ty != NativeTy::I128 {
            Some(ty)
        } else {
            None
        },
        NativeOp::BxorImm(_) => if args.len() == 1 && args[0] != NativeTy::I128 {
            Some(args[0])
        } else {
            None
        },
        NativeOp::Bnot | NativeOp::Iabs | NativeOp::Ineg | NativeOp::Clz | NativeOp::Ctz
        | NativeOp::Popcnt | NativeOp::Bitrev | NativeOp::Bswap => if args.len() == 1 {
            Some(args[0])
        } else {
            None
        },
        NativeOp::IcmpImm(_, _) => if args.len() == 1 && args[0] != NativeTy::I128 {
            Some(NativeTy::I8)
        } else {
            None
        },
        NativeOp::Ireduce(ty) => if args.len() == 1 && ty.bits() < args[0].bits() {
            Some(ty)
        } else {
            None
        },
        NativeOp::IsplitHi => if args.len() == 1 && args[0] == NativeTy::I128 {
            Some(NativeTy::I64)
        } else {
            None
        },
        NativeOp::Band | NativeOp::Bor | NativeOp::Bxor | NativeOp::Iadd | NativeOp::Isub
        | NativeOp::Imul | NativeOp::Smulhi | NativeOp::Umulhi | NativeOp::Smax | NativeOp::Umax
        | NativeOp::Smin | NativeOp::Umin => if args.len() == 2 && args[0] == args[1] {
            Some(args[0])
        } else {
            None
        },
        NativeOp::Rotl | NativeOp::Rotr | NativeOp::Ishl | NativeOp::Sshr | NativeOp::Ushr => if args.len()
            == 2 {
            Some(args[0])
        } else {
            None
        },
        NativeOp::Icmp(_) => if args.len() == 2 && args[0] == args[1] {
            Some(NativeTy::I8)
        } else {
            None
        },
        NativeOp::Select => if args.len() == 3 && args[1] == args[2] {
            Some(args[1])
        } else {
            None
        },
    }
}

/// One thing that a function builder was told. Blocks and values are named
/// by the numbers that the builder gave them.
pub enum Emitted {
    /// A block was created.
    CreateBlock { block: u32 },
    /// The builder moved to a block; what follows is appended to it.
    SwitchTo { block: u32 },
    /// A parameter was appended to a block.
    Param { block: u32, ty: NativeTy, value: u32 },
    /// A primitive was appended to the current block.
    Op { op: NativeOp, args: Seq<u32>, value: u32 },
    /// A jump was appended to the current block, which ends it.
    Jump { target: u32, args: Seq<u32> },
    /// A two-way branch was appended to the current block, which ends it.
    Brif { cond: u32, then_target: u32, then_args: Seq<u32>, else_target: u32, else_args: Seq<u32> },
    /// A return was appended to the current block, which ends it.
    Return { args: Seq<u32> },
    /// Every block created so far was sealed: none of them gets another
    /// predecessor.
    SealAll,
}

/// How far a block has been filled.
pub enum BlockStatus {
    /// Nothing has been appended to the block, which has `params`
    /// parameters.
    Pristine { params: nat },
    /// Something has been appended, but nothing that ends the block.
    Partial,
    /// The block is ended.
    Filled,
}

/// What follows from all that a function builder was told.
pub struct Summary {
    /// The block that the builder is at, if it was moved to one.
    pub current: Option<u32>,
    /// Each block created, and how far it is filled.
    pub status: Map<u32, BlockStatus>,
    /// Each value defined, and its type.
    pub types: Map<u32, NativeTy>,
    /// The blocks that are sealed: none of them gets another predecessor.
    pub sealed: Set<u32>,
    /// The number of blocks made.
    pub blocks: nat,
    /// The number of values made.
    pub values: nat,
}

/// The summary of a builder that was told nothing.
pub open spec fn blank() -> Summary {
    Summary {
        current: None,
        status: Map::empty(),
        types: Map::empty(),
        sealed: Set::empty(),
        blocks: 0,
        values: 0,
    }
}

impl Summary {
    /// Whether something can be appended to the current block.
    pub open spec fn can_append(self) -> bool {
        &&& self.current is Some
        &&& self.status.dom().contains(self.current.unwrap())
        &&& !(self.status[self.current.unwrap()] is Filled)
    }

    /// Whether each of `args` is a defined value.
    pub open spec fn defines(self, args: Seq<u32>) -> bool {
        forall|i: int| 0 <= i < args.len() ==> self.types.dom().contains(#[trigger] args[i])
    }

    /// The types of the values `args`.
    pub open spec fn types_of(self, args: Seq<u32>) -> Seq<NativeTy> {
        Seq::new(args.len(), |i: int| self.types[args[i]])
    }

    /// The summary with the current block in the given state.
    pub open spec fn with_current(self, st: BlockStatus) -> Summary {
        Summary { status: self.status.insert(self.current.unwrap(), st), ..self }
    }
}

/// The most parameters that the code generator gives one block: it keeps
/// the place of a parameter in sixteen bits.
pub const PARAMS_LIMIT: usize = 0x1_0000;

/// The bound on the numbers of one function: the code generator keeps a
/// value that is passed to a block in thirty bits, and no block or value is
/// made beyond that bound.
pub const NUMBER_LIMIT: usize = 0x4000_0000;

/// Whether each of `args` can be passed to a block.
pub open spec fn passable(args: Seq<u32>) -> bool {
    forall|i: int| 0 <= i < args.len() ==> #[trigger] args[i] < NUMBER_LIMIT
}

/// Whether a builder with summary `s` can be told `e` without breaking the
/// rules that the builder checks: instructions go into a block that is not
/// ended, operands are defined values of types that the primitive takes, a
/// block gets parameters only while it is pristine and has fewer than the
/// most it can have, the builder leaves a block only when it is pristine or
/// ended, no sealed block is jumped to, what is passed to a block is
/// passable, and the numbers of blocks and values stay within their bound.
pub open spec fn allowed(s: Summary, e: Emitted) -> bool {
    match e {
        Emitted::CreateBlock { .. } => s.blocks < NUMBER_LIMIT,
        Emitted::SwitchTo { block } => {
            &&& s.status.dom().contains(block)
            &&& !(s.status[block] is Filled)
            &&& s.current matches Some(c) ==> s.status.dom().contains(c) && !(s.status[c] is Partial)
        },
        Emitted::Param { block, .. } => {
            &&& s.status.dom().contains(block)
            &&& s.status[block] matches BlockStatus::Pristine { params }
            &&& params < PARAMS_LIMIT
            &&& s.values < NUMBER_LIMIT
        },
        Emitted::Op { op, args, .. } => {
            &&& s.can_append()
            &&& s.defines(args)
            &&& result_type(op, s.types_of(args)) is Some
            &&& s.values + width(op) <= NUMBER_LIMIT
        },
        Emitted::Jump { target, args } => {
            &&& s.can_append()
            &&& s.status.dom().contains(target)
            &&& !s.sealed.contains(target)
            &&& s.defines(args)
            &&& passable(args)
        },
        Emitted::Brif { cond, then_target, then_args, else_target, else_args } => {
            &&& s.can_append()
            &&& s.types.dom().contains(cond)
            &&& s.status.dom().contains(then_target)
            &&& s.status.dom().contains(else_target)
            &&& !s.sealed.contains(then_target)
            &&& !s.sealed.contains(else_target)
            &&& s.defines(then_args)
            &&& s.defines(else_args)
            &&& passable(then_args)
            &&& passable(else_args)
        },
        Emitted::Return { args } => s.can_append() && s.defines(args),
        Emitted::SealAll => true,
    }
}

/// The number of values that a primitive makes: two for a split, whose
/// low half comes first, and one for every other.
pub open spec fn width(op: NativeOp) -> nat {
    if op is IsplitHi {
        2
    } else {
        1
    }
}

/// Whether what `e` creates did not exist in a builder with summary `s`,
/// and has the number that such a builder gives next: blocks are numbered in
/// the order they are made, from zero, and so are values, where a primitive
/// gives the last of the values it makes.
pub open spec fn fresh(s: Summary, e: Emitted) -> bool {
    match e {
        Emitted::CreateBlock { block } => !s.status.dom().contains(block) && block == s.blocks,
        Emitted::Param { value, .. } => !s.types.dom().contains(value) && value == s.values,
        Emitted::Op { op, value, .. } => !s.types.dom().contains(value) && value + 1 == s.values
            + width(op),
        _ => true,
    }
}

/// The summary of a builder with summary `s` after it was told `e`.
pub open spec fn apply(s: Summary, e: Emitted) -> Summary {
    match e {
        Emitted::CreateBlock { block } => Summary {
            status: s.status.insert(block, BlockStatus::Pristine { params: 0 }),
            blocks: s.blocks + 1,
            ..s
        },
        Emitted::SwitchTo { block } => Summary { current: Some(block), ..s },
        Emitted::Param { block, value, ty } => Summary {
            status: match s.status[block] {
                BlockStatus::Pristine { params } => s.status.insert(
                    block,
                    BlockStatus::Pristine { params: params + 1 },
                ),
                _ => s.status,
            },
            types: s.types.insert(value, ty),
            values: s.values + 1,
            ..s
        },
        Emitted::Op { op, args, value } => Summary {
            types: s.types.insert(value, result_type(op, s.types_of(args)).unwrap()),
            values: s.values + width(op),
            ..s.with_current(BlockStatus::Partial)
        },
        Emitted::Jump { .. } | Emitted::Brif { .. } | Emitted::Return { .. } => s.with_current(
            BlockStatus::Filled,
        ),
        Emitted::SealAll => Summary { sealed: s.status.dom(), ..s },
    }
}

/// The summary of a builder that was told `log`, in order.
pub open spec fn summarize(log: Seq<Emitted>) -> Summary
    decreases log.len(),
{
    if log.len() == 0 {
        blank()
    } else {
        apply(summarize(log.drop_last()), log.last())
    }
}

/// Telling a builder one more thing changes its summary by that thing.
pub proof fn lemma_summarize_push(log: Seq<Emitted>, e: Emitted)
    ensures
        summarize(log.push(e)) == apply(summarize(log), e),
{
    assert(log.push(e).drop_last() =~= log);
}

/// A block was created.
pub open spec fn created(block: u32) -> Emitted {
    Emitted::CreateBlock { block }
}

/// The builder moved to a block.
pub open spec fn switched(block: u32) -> Emitted {
    Emitted::SwitchTo { block }
}

/// A parameter was appended to a block.
pub open spec fn param(block: u32, ty: NativeTy, value: u32) -> Emitted {
    Emitted::Param { block, ty, value }
}

/// A primitive was appended.
pub open spec fn applied(op: NativeOp, args: Seq<u32>, value: u32) -> Emitted {
    Emitted::Op { op, args, value }
}

/// A jump was appended.
pub open spec fn jumped(target: u32, args: Seq<u32>) -> Emitted {
    Emitted::Jump { target, args }
}

/// A two-way branch was appended.
pub open spec fn branched(
    cond: u32,
    then_target: u32,
    then_args: Seq<u32>,
    else_target: u32,
    else_args: Seq<u32>,
) -> Emitted {
    Emitted::Brif { cond, then_target, then_args, else_target, else_args }
}

/// A return was appended.
pub open spec fn returned(args: Seq<u32>) -> Emitted {
    Emitted::Return { args }
}

/// Whether a builder with summary `s` can be finished: every block is
/// sealed, and every block that anything was appended to is ended.
pub open spec fn can_finish(s: Summary) -> bool {
    &&& forall|b: u32| s.status.dom().contains(b) ==> s.sealed.contains(b)
    &&& forall|b: u32| s.status.dom().contains(b) ==> !(#[trigger] s.status[b] is Partial)
}

/// The native signature of a function.
pub struct NativeSignature {
    pub convention: Convention,
    pub params: Seq<NativeTy>,
    pub returns: Seq<NativeTy>,
}

/// The signature that takes and gives nothing.
pub open spec fn bare(convention: Convention) -> NativeSignature {
    NativeSignature { convention, params: Seq::empty(), returns: Seq::empty() }
}

/// A native function: its signature, and what the builder of its body was
/// told.
pub struct NativeFunction {
    pub signature: NativeSignature,
    pub body: Seq<Emitted>,
}

/// What a module is told of a function before it gets a body.
pub struct Declaration {
    pub name: Seq<char>,
    pub visibility: Visibility,
    pub signature: NativeSignature,
}

/// One thing that a module was asked to do.
pub enum Request {
    /// A function was declared, and the module answered with its number or
    /// with a failure.
    Declare { declaration: Declaration, answer: Result<u32, ModuleFailure> },
    /// A declared function was given a body, which the module took.
    Define { id: u32, function: NativeFunction },
}

/// What a module was made with: the target triple, the optimisation level
/// if one was set, and the module's name.
pub struct Setup {
    pub triple: Seq<char>,
    pub level: Option<Seq<char>>,
    pub name: Seq<char>,
}

/// All that a module holds: what it was made with, and what it was asked
/// since, in order.
pub struct Image {
    pub setup: Setup,
    pub requests: Seq<Request>,
}

/// The module made with `setup` that was asked nothing yet.
pub open spec fn vacant(setup: Setup) -> Image {
    Image { setup, requests: Seq::empty() }
}

impl Image {
    /// The module after one more request.
    pub open spec fn with(self, e: Request) -> Image {
        Image { requests: self.requests.push(e), ..self }
    }

    /// The functions declared.
    pub open spec fn declared(self) -> Set<u32> {
        declared_in(self.requests)
    }

    /// The functions defined.
    pub open spec fn defined(self) -> Set<u32> {
        defined_in(self.requests)
    }
}

/// The numbers that the module answered declarations with.
pub open spec fn declared_in(log: Seq<Request>) -> Set<u32>
    decreases log.len(),
{
    if log.len() == 0 {
        Set::empty()
    } else {
        match log.last() {
            Request::Declare { answer: Ok(id), .. } => declared_in(log.drop_last()).insert(id),
            _ => declared_in(log.drop_last()),
        }
    }
}

/// The numbers of the functions that were given a body.
pub open spec fn defined_in(log: Seq<Request>) -> Set<u32>
    decreases log.len(),
{
    if log.len() == 0 {
        Set::empty()
    } else {
        match log.last() {
            Request::Define { id, .. } => defined_in(log.drop_last()).insert(id),
            _ => defined_in(log.drop_last()),
        }
    }
}

/// One more request changes the declared and the defined functions by that
/// request.
pub proof fn lemma_request_push(log: Seq<Request>, e: Request)
    ensures
        declared_in(log.push(e)) == (match e {
            Request::Declare { answer: Ok(id), .. } => declared_in(log).insert(id),
            _ => declared_in(log),
        }),
        defined_in(log.push(e)) == (match e {
            Request::Define { id, .. } => defined_in(log).insert(id),
            _ => defined_in(log),
        }),
{
    assert(log.push(e).drop_last() =~= log);
}

/// The declarations that a module holds once it was asked `log`: one for
/// each name, in the order in which the names were first declared. The
/// place of a declaration is the number of its function.
pub open spec fn registry(log: Seq<Request>) -> Seq<Declaration>
    decreases log.len(),
{
    if log.len() == 0 {
        Seq::empty()
    } else {
        let before = registry(log.drop_last());
        match log.last() {
            Request::Declare { declaration, answer: Ok(id) } => if id == before.len() {
                before.push(declaration)
            } else {
                before
            },
            _ => before,
        }
    }
}

/// The place in `r` of the declaration under `name`, if there is one.
pub open spec fn known(r: Seq<Declaration>, name: Seq<char>) -> Option<int> {
    if exists|i: int| 0 <= i < r.len() && r[i].name == name {
        Some(choose|i: int| 0 <= i < r.len() && r[i].name == name)
    } else {
        None
    }
}

/// What a module that was asked `log` answers to a declaration. A name
/// that holds the character of code zero is refused. A name that is new
/// gets the next number. A name that is known gets its number again where
/// the signature is the one it was first declared with, and is refused
/// where it is another.
pub open spec fn declaring(log: Seq<Request>, d: Declaration) -> Result<u32, ModuleFailure> {
    let r = registry(log);
    if d.name.contains('\0') {
        Err(ModuleFailure::Backend)
    } else {
        match known(r, d.name) {
            None => Ok(r.len() as u32),
            Some(i) => if r[i].signature == d.signature {
                Ok(i as u32)
            } else {
                Err(ModuleFailure::IncompatibleSignature)
            },
        }
    }
}

} // verus!
