//! The code generator, as this library sees it: its types, a record of what
//! a function builder and a module have been told, a name for what each of
//! its answers is, and one function for each of its operations that the
//! lowering engine calls.
//!
//! Nothing in this file is proved. Each function states what it takes for
//! granted of the operation it calls.

use vstd::prelude::*;
use cranelift_codegen::ir;
use cranelift_codegen::ir::condcodes::IntCC;
use cranelift_codegen::ir::types;
use cranelift_codegen::ir::InstBuilder;
use cranelift_codegen::settings::Configurable;
use cranelift_frontend::FunctionBuilder;
use cranelift_module::Module;
use crate::native::{
    allowed, applied, bare, branched, can_finish, created, declaring, fresh, jumped, param,
    returned,
    summarize, switched, vacant, Compare, Declaration, Emitted, Image, NativeFunction,
    NativeOp, NativeSignature, NativeTy, Request, Setup, NUMBER_LIMIT,
};

verus! {

/// A calling convention.
#[derive(Clone, Copy, Debug, PartialEq, Eq, Structural)]
pub enum Convention {
    Fast,
    SystemV,
    WindowsFastcall,
    AppleAarch64,
}

/// Whether a function can be seen from outside the object.
#[derive(Clone, Copy, Debug, PartialEq, Eq, Structural)]
pub enum Visibility {
    Local,
    Export,
}

/// The kinds of failure that a module reports.
#[derive(Clone, Copy, Debug, PartialEq, Eq, Structural)]
pub enum ModuleFailure {
    Undeclared,
    IncompatibleDeclaration,
    IncompatibleSignature,
    DuplicateDefinition,
    InvalidImportDefinition,
    /// The code generator has no support for something in the function.
    Unsupported,
    /// The code generator refused the function for another reason.
    Compilation,
    Allocation,
    Backend,
    Flag,
}

/// The builder of one function's body.
#[verifier::external_type_specification]
#[verifier::external_body]
pub struct ExFunctionBuilder<'a>(cranelift_frontend::FunctionBuilder<'a>);

/// The working memory that a function builder borrows.
#[verifier::external_type_specification]
#[verifier::external_body]
pub struct ExFunctionBuilderContext(cranelift_frontend::FunctionBuilderContext);

/// A compilation context: one function, with its signature, and what the
/// code generator makes of it.
#[verifier::external_type_specification]
#[verifier::external_body]
pub struct ExContext(cranelift_codegen::Context);

/// What a function builder has been told since it was made over an empty
/// function, in order.
pub uninterp spec fn built(fb: &FunctionBuilder<'_>) -> Seq<Emitted>;

/// Whether a builder context holds nothing of an unfinished function.
pub uninterp spec fn unused(fbc: &cranelift_frontend::FunctionBuilderContext) -> bool;

/// The function that a compilation context holds: its signature, and what
/// the builder of its body was told.
pub uninterp spec fn held(ctx: &cranelift_codegen::Context) -> NativeFunction;

/// `Context::new`: a compilation context with an empty function.
#[verifier::external_body]
pub(crate) fn new_context() -> (r: cranelift_codegen::Context)
    ensures
        held(&r).body == Seq::<Emitted>::empty(),
{
    cranelift_codegen::Context::new()
}

/// `FunctionBuilderContext::new`: a builder context that holds nothing.
#[verifier::external_body]
pub(crate) fn new_builder_context() -> (r: cranelift_frontend::FunctionBuilderContext)
    ensures
        unused(&r),
{
    cranelift_frontend::FunctionBuilderContext::new()
}

/// `FunctionBuilder::new` on the function of `ctx`, which is empty: a
/// builder that has been told nothing yet, and that numbers the blocks and
/// values it makes from zero.
#[verifier::external_body]
pub(crate) fn new_builder<'a>(
    ctx: &'a mut cranelift_codegen::Context,
    fbc: &'a mut cranelift_frontend::FunctionBuilderContext,
) -> (r: FunctionBuilder<'a>)
    requires
        unused(old(fbc)),
        held(old(ctx)).body == Seq::<Emitted>::empty(),
    ensures
        built(&r) == Seq::<Emitted>::empty(),
{
    FunctionBuilder::new(&mut ctx.func, fbc)
}

/// `FunctionBuilder::finalize`, after a copy of the function that the
/// builder filled was taken, and `Context::for_function` on that copy: a
/// compilation context whose function has the body that the builder was
/// told. Nothing is said of its signature.
#[verifier::external_body]
pub(crate) fn finalize(fb: FunctionBuilder<'_>) -> (r: cranelift_codegen::Context)
    requires
        can_finish(summarize(built(&fb))),
    ensures
        held(&r).body == built(&fb),
{
    let func = fb.func.clone();
    fb.finalize();
    cranelift_codegen::Context::for_function(func)
}

/// `Function::clone` and `Context::for_function`: a compilation context
/// that holds the same function, with nothing compiled yet.
#[verifier::external_body]
pub(crate) fn copy_context(ctx: &cranelift_codegen::Context) -> (r: cranelift_codegen::Context)
    ensures
        held(&r) == held(ctx),
{
    cranelift_codegen::Context::for_function(ctx.func.clone())
}

/// `FunctionBuilder::create_block`: makes a block that did not exist before
/// and has the next number.
#[verifier::external_body]
pub(crate) fn create_block(fb: &mut FunctionBuilder<'_>) -> (r: u32)
    requires
        allowed(summarize(built(old(fb))), created(0)),
    ensures
        built(final(fb)) == built(old(fb)).push(created(r)),
        fresh(summarize(built(old(fb))), created(r)),
{
    fb.create_block().as_u32()
}

/// `FunctionBuilder::switch_to_block`: what is appended next goes to `block`.
#[verifier::external_body]
pub(crate) fn switch_to_block(fb: &mut FunctionBuilder<'_>, block: u32)
    requires
        allowed(summarize(built(old(fb))), switched(block)),
    ensures
        built(final(fb)) == built(old(fb)).push(switched(block)),
{
    fb.switch_to_block(ir::Block::from_u32(block))
}

/// `FunctionBuilder::append_block_param`: gives `block` one more parameter of
/// type `ty`; its value did not exist before.
#[verifier::external_body]
pub(crate) fn append_block_param(fb: &mut FunctionBuilder<'_>, block: u32, ty: NativeTy) -> (r: u32)
    requires
        allowed(summarize(built(old(fb))), param(block, ty, 0)),
    ensures
        built(final(fb)) == built(old(fb)).push(param(block, ty, r)),
        fresh(summarize(built(old(fb))), param(block, ty, r)),
{
    let ty = match ty {
        NativeTy::I8 => types::I8,
        NativeTy::I64 => types::I64,
        NativeTy::I128 => types::I128,
    };
    fb.append_block_param(ir::Block::from_u32(block), ty).as_u32()
}

/// `InstBuilder::jump`: ends the current block with a jump to `target` that
/// passes `args`.
#[verifier::external_body]
pub(crate) fn emit_jump(fb: &mut FunctionBuilder<'_>, target: u32, args: &Vec<u32>)
    requires
        allowed(summarize(built(old(fb))), jumped(target, args@)),
    ensures
        built(final(fb)) == built(old(fb)).push(jumped(target, args@)),
{
    let args: Vec<ir::BlockArg> = args.iter().map(|v| ir::BlockArg::Value(ir::Value::from_u32(*v))).collect();
    fb.ins().jump(ir::Block::from_u32(target), &args);
}

/// `InstBuilder::brif`: ends the current block with a branch to `then_target`
/// where `cond` is not zero and to `else_target` where it is, each with its
/// own arguments.
#[verifier::external_body]
pub(crate) fn emit_brif(
    fb: &mut FunctionBuilder<'_>,
    cond: u32,
    then_target: u32,
    then_args: &Vec<u32>,
    else_target: u32,
    else_args: &Vec<u32>,
)
    requires
        allowed(
            summarize(built(old(fb))),
            branched(cond, then_target, then_args@, else_target, else_args@),
        ),
    ensures
        built(final(fb)) == built(old(fb)).push(
            branched(cond, then_target, then_args@, else_target, else_args@),
        ),
{
    let t: Vec<ir::BlockArg> = then_args.iter().map(|v| ir::BlockArg::Value(ir::Value::from_u32(*v))).collect();
    let e: Vec<ir::BlockArg> = else_args.iter().map(|v| ir::BlockArg::Value(ir::Value::from_u32(*v))).collect();
    let (tb, eb) = (ir::Block::from_u32(then_target), ir::Block::from_u32(else_target));
    fb.ins().brif(ir::Value::from_u32(cond), tb, &t, eb, &e);
}

/// `InstBuilder::return_`: ends the current block with a return of `args`.
#[verifier::external_body]
pub(crate) fn emit_return(fb: &mut FunctionBuilder<'_>, args: &Vec<u32>)
    requires
        allowed(summarize(built(old(fb))), returned(args@)),
    ensures
        built(final(fb)) == built(old(fb)).push(returned(args@)),
{
    let args: Vec<ir::Value> = args.iter().map(|v| ir::Value::from_u32(*v)).collect();
    fb.ins().return_(&args);
}

/// `FunctionBuilder::seal_all_blocks`: declares that every block has all its
/// predecessors.
#[verifier::external_body]
pub(crate) fn seal_all_blocks(fb: &mut FunctionBuilder<'_>)
    ensures
        built(final(fb)) == built(old(fb)).push(Emitted::SealAll),
{
    fb.seal_all_blocks()
}

/// `InstBuilder::iconst`: appends a constant of type `ty` to the current block and
/// gives its value, which did not exist before and has the
/// next number.
#[verifier::external_body]
pub(crate) fn emit_iconst(fb: &mut FunctionBuilder<'_>, ty: NativeTy, imm: i64) -> (r: u32)
    requires
        allowed(summarize(built(old(fb))), applied(NativeOp::Iconst(ty, imm), Seq::<u32>::empty(), 0)),
    ensures
        built(final(fb)) == built(old(fb)).push(applied(NativeOp::Iconst(ty, imm), Seq::<u32>::empty(), r)),
        fresh(summarize(built(old(fb))), applied(NativeOp::Iconst(ty, imm), Seq::<u32>::empty(), r)),
{
    let ty = match ty {
        NativeTy::I8 => types::I8,
        NativeTy::I64 => types::I64,
        NativeTy::I128 => types::I128,
    };
    fb.ins().iconst(ty, imm).as_u32()
}

/// `InstBuilder::bxor_imm`: appends the exclusive or of `x` with a constant and
/// gives its value, which did not exist before and has the
/// next number.
#[verifier::external_body]
pub(crate) fn emit_bxor_imm(fb: &mut FunctionBuilder<'_>, x: u32, imm: i64) -> (r: u32)
    requires
        allowed(summarize(built(old(fb))), applied(NativeOp::BxorImm(imm), seq![x], 0)),
    ensures
        built(final(fb)) == built(old(fb)).push(applied(NativeOp::BxorImm(imm), seq![x], r)),
        fresh(summarize(built(old(fb))), applied(NativeOp::BxorImm(imm), seq![x], r)),
{
    fb.ins().bxor_imm(ir::Value::from_u32(x), imm).as_u32()
}

/// `InstBuilder::icmp_imm`: appends the comparison of `x` with a constant and
/// gives its value, which did not exist before and has the
/// next number.
#[verifier::external_body]
pub(crate) fn emit_icmp_imm(fb: &mut FunctionBuilder<'_>, cc: Compare, x: u32, imm: i64) -> (r: u32)
    requires
        allowed(summarize(built(old(fb))), applied(NativeOp::IcmpImm(cc, imm), seq![x], 0)),
    ensures
        built(final(fb)) == built(old(fb)).push(applied(NativeOp::IcmpImm(cc, imm), seq![x], r)),
        fresh(summarize(built(old(fb))), applied(NativeOp::IcmpImm(cc, imm), seq![x], r)),
{
    let cc = match cc {
        Compare::Equal => IntCC::Equal,
        Compare::NotEqual => IntCC::NotEqual,
        Compare::SignedLessThan => IntCC::SignedLessThan,
        Compare::SignedGreaterThanOrEqual => IntCC::SignedGreaterThanOrEqual,
        Compare::SignedGreaterThan => IntCC::SignedGreaterThan,
        Compare::SignedLessThanOrEqual => IntCC::SignedLessThanOrEqual,
        Compare::UnsignedLessThan => IntCC::UnsignedLessThan,
        Compare::UnsignedGreaterThanOrEqual => IntCC::UnsignedGreaterThanOrEqual,
        Compare::UnsignedGreaterThan => IntCC::UnsignedGreaterThan,
        Compare::UnsignedLessThanOrEqual => IntCC::UnsignedLessThanOrEqual,
    };
    fb.ins().icmp_imm(cc, ir::Value::from_u32(x), imm).as_u32()
}

/// `InstBuilder::ireduce`: appends the narrowing of `x` to type `ty` and gives
/// its value, which did not exist before and has the
/// next number.
#[verifier::external_body]
pub(crate) fn emit_ireduce(fb: &mut FunctionBuilder<'_>, ty: NativeTy, x: u32) -> (r: u32)
    requires
        allowed(summarize(built(old(fb))), applied(NativeOp::Ireduce(ty), seq![x], 0)),
    ensures
        built(final(fb)) == built(old(fb)).push(applied(NativeOp::Ireduce(ty), seq![x], r)),
        fresh(summarize(built(old(fb))), applied(NativeOp::Ireduce(ty), seq![x], r)),
{
    let ty = match ty {
        NativeTy::I8 => types::I8,
        NativeTy::I64 => types::I64,
        NativeTy::I128 => types::I128,
    };
    fb.ins().ireduce(ty, ir::Value::from_u32(x)).as_u32()
}

/// `InstBuilder::isplit`: appends the split of `x` into halves and gives the
/// value of the high half, which did not exist before and has the
/// next number.
#[verifier::external_body]
pub(crate) fn emit_isplit_hi(fb: &mut FunctionBuilder<'_>, x: u32) -> (r: u32)
    requires
        allowed(summarize(built(old(fb))), applied(NativeOp::IsplitHi, seq![x], 0)),
    ensures
        built(final(fb)) == built(old(fb)).push(applied(NativeOp::IsplitHi, seq![x], r)),
        fresh(summarize(built(old(fb))), applied(NativeOp::IsplitHi, seq![x], r)),
{
    fb.ins().isplit(ir::Value::from_u32(x)).1.as_u32()
}

/// `InstBuilder::bnot`: appends the bitwise complement of `x` to the current block and
/// gives its value, which did not exist before and has the
/// next number.
#[verifier::external_body]
pub(crate) fn emit_bnot(fb: &mut FunctionBuilder<'_>, x: u32) -> (r: u32)
    requires
        allowed(summarize(built(old(fb))), applied(NativeOp::Bnot, seq![x], 0)),
    ensures
        built(final(fb)) == built(old(fb)).push(applied(NativeOp::Bnot, seq![x], r)),
        fresh(summarize(built(old(fb))), applied(NativeOp::Bnot, seq![x], r)),
{
    fb.ins().bnot(ir::Value::from_u32(x)).as_u32()
}

/// `InstBuilder::iabs`: appends the absolute value of `x` to the current block and
/// gives its value, which did not exist before and has the
/// next number.
#[verifier::external_body]
pub(crate) fn emit_iabs(fb: &mut FunctionBuilder<'_>, x: u32) -> (r: u32)
    requires
        allowed(summarize(built(old(fb))), applied(NativeOp::Iabs, seq![x], 0)),
    ensures
        built(final(fb)) == built(old(fb)).push(applied(NativeOp::Iabs, seq![x], r)),
        fresh(summarize(built(old(fb))), applied(NativeOp::Iabs, seq![x], r)),
{
    fb.ins().iabs(ir::Value::from_u32(x)).as_u32()
}

/// `InstBuilder::ineg`: appends the negation of `x` to the current block and
/// gives its value, which did not exist before and has the
/// next number.
#[verifier::external_body]
pub(crate) fn emit_ineg(fb: &mut FunctionBuilder<'_>, x: u32) -> (r: u32)
    requires
        allowed(summarize(built(old(fb))), applied(NativeOp::Ineg, seq![x], 0)),
    ensures
        built(final(fb)) == built(old(fb)).push(applied(NativeOp::Ineg, seq![x], r)),
        fresh(summarize(built(old(fb))), applied(NativeOp::Ineg, seq![x], r)),
{
    fb.ins().ineg(ir::Value::from_u32(x)).as_u32()
}

/// `InstBuilder::clz`: appends the count of leading zeros of `x` to the current block and
/// gives its value, which did not exist before and has the
/// next number.
#[verifier::external_body]
pub(crate) fn emit_clz(fb: &mut FunctionBuilder<'_>, x: u32) -> (r: u32)
    requires
        allowed(summarize(built(old(fb))), applied(NativeOp::Clz, seq![x], 0)),
    ensures
        built(final(fb)) == built(old(fb)).push(applied(NativeOp::Clz, seq![x], r)),
        fresh(summarize(built(old(fb))), applied(NativeOp::Clz, seq![x], r)),
{
    fb.ins().clz(ir::Value::from_u32(x)).as_u32()
}

/// `InstBuilder::ctz`: appends the count of trailing zeros of `x` to the current block and
/// gives its value, which did not exist before and has the
/// next number.
#[verifier::external_body]
pub(crate) fn emit_ctz(fb: &mut FunctionBuilder<'_>, x: u32) -> (r: u32)
    requires
        allowed(summarize(built(old(fb))), applied(NativeOp::Ctz, seq![x], 0)),
    ensures
        built(final(fb)) == built(old(fb)).push(applied(NativeOp::Ctz, seq![x], r)),
        fresh(summarize(built(old(fb))), applied(NativeOp::Ctz, seq![x], r)),
{
    fb.ins().ctz(ir::Value::from_u32(x)).as_u32()
}

/// `InstBuilder::popcnt`: appends the count of set bits of `x` to the current block and
/// gives its value, which did not exist before and has the
/// next number.
#[verifier::external_body]
pub(crate) fn emit_popcnt(fb: &mut FunctionBuilder<'_>, x: u32) -> (r: u32)
    requires
        allowed(summarize(built(old(fb))), applied(NativeOp::Popcnt, seq![x], 0)),
    ensures
        built(final(fb)) == built(old(fb)).push(applied(NativeOp::Popcnt, seq![x], r)),
        fresh(summarize(built(old(fb))), applied(NativeOp::Popcnt, seq![x], r)),
{
    fb.ins().popcnt(ir::Value::from_u32(x)).as_u32()
}

/// `InstBuilder::bitrev`: appends the bits in reverse order of `x` to the current block and
/// gives its value, which did not exist before and has the
/// next number.
#[verifier::external_body]
pub(crate) fn emit_bitrev(fb: &mut FunctionBuilder<'_>, x: u32) -> (r: u32)
    requires
        allowed(summarize(built(old(fb))), applied(NativeOp::Bitrev, seq![x], 0)),
    ensures
        built(final(fb)) == built(old(fb)).push(applied(NativeOp::Bitrev, seq![x], r)),
        fresh(summarize(built(old(fb))), applied(NativeOp::Bitrev, seq![x], r)),
{
    fb.ins().bitrev(ir::Value::from_u32(x)).as_u32()
}

/// `InstBuilder::bswap`: appends the bytes in reverse order of `x` to the current block and
/// gives its value, which did not exist before and has the
/// next number.
#[verifier::external_body]
pub(crate) fn emit_bswap(fb: &mut FunctionBuilder<'_>, x: u32) -> (r: u32)
    requires
        allowed(summarize(built(old(fb))), applied(NativeOp::Bswap, seq![x], 0)),
    ensures
        built(final(fb)) == built(old(fb)).push(applied(NativeOp::Bswap, seq![x], r)),
        fresh(summarize(built(old(fb))), applied(NativeOp::Bswap, seq![x], r)),
{
    fb.ins().bswap(ir::Value::from_u32(x)).as_u32()
}

/// `InstBuilder::band`: appends the bitwise and of `x` and `y` to the current
/// block and gives its value, which did not exist before and has the
/// next number.
#[verifier::external_body]
pub(crate) fn emit_band(fb: &mut FunctionBuilder<'_>, x: u32, y: u32) -> (r: u32)
    requires
        allowed(summarize(built(old(fb))), applied(NativeOp::Band, seq![x, y], 0)),
    ensures
        built(final(fb)) == built(old(fb)).push(applied(NativeOp::Band, seq![x, y], r)),
        fresh(summarize(built(old(fb))), applied(NativeOp::Band, seq![x, y], r)),
{
    fb.ins().band(ir::Value::from_u32(x), ir::Value::from_u32(y)).as_u32()
}

/// `InstBuilder::bor`: appends the bitwise or of `x` and `y` to the current
/// block and gives its value, which did not exist before and has the
/// next number.
#[verifier::external_body]
pub(crate) fn emit_bor(fb: &mut FunctionBuilder<'_>, x: u32, y: u32) -> (r: u32)
    requires
        allowed(summarize(built(old(fb))), applied(NativeOp::Bor, seq![x, y], 0)),
    ensures
        built(final(fb)) == built(old(fb)).push(applied(NativeOp::Bor, seq![x, y], r)),
        fresh(summarize(built(old(fb))), applied(NativeOp::Bor, seq![x, y], r)),
{
    fb.ins().bor(ir::Value::from_u32(x), ir::Value::from_u32(y)).as_u32()
}

/// `InstBuilder::bxor`: appends the bitwise exclusive or of `x` and `y` to the current
/// block and gives its value, which did not exist before and has the
/// next number.
#[verifier::external_body]
pub(crate) fn emit_bxor(fb: &mut FunctionBuilder<'_>, x: u32, y: u32) -> (r: u32)
    requires
        allowed(summarize(built(old(fb))), applied(NativeOp::Bxor, seq![x, y], 0)),
    ensures
        built(final(fb)) == built(old(fb)).push(applied(NativeOp::Bxor, seq![x, y], r)),
        fresh(summarize(built(old(fb))), applied(NativeOp::Bxor, seq![x, y], r)),
{
    fb.ins().bxor(ir::Value::from_u32(x), ir::Value::from_u32(y)).as_u32()
}

/// `InstBuilder::iadd`: appends the wrapping sum of `x` and `y` to the current
/// block and gives its value, which did not exist before and has the
/// next number.
#[verifier::external_body]
pub(crate) fn emit_iadd(fb: &mut FunctionBuilder<'_>, x: u32, y: u32) -> (r: u32)
    requires
        allowed(summarize(built(old(fb))), applied(NativeOp::Iadd, seq![x, y], 0)),
    ensures
        built(final(fb)) == built(old(fb)).push(applied(NativeOp::Iadd, seq![x, y], r)),
        fresh(summarize(built(old(fb))), applied(NativeOp::Iadd, seq![x, y], r)),
{
    fb.ins().iadd(ir::Value::from_u32(x), ir::Value::from_u32(y)).as_u32()
}

/// `InstBuilder::isub`: appends the wrapping difference of `x` and `y` to the current
/// block and gives its value, which did not exist before and has the
/// next number.
#[verifier::external_body]
pub(crate) fn emit_isub(fb: &mut FunctionBuilder<'_>, x: u32, y: u32) -> (r: u32)
    requires
        allowed(summarize(built(old(fb))), applied(NativeOp::Isub, seq![x, y], 0)),
    ensures
        built(final(fb)) == built(old(fb)).push(applied(NativeOp::Isub, seq![x, y], r)),
        fresh(summarize(built(old(fb))), applied(NativeOp::Isub, seq![x, y], r)),
{
    fb.ins().isub(ir::Value::from_u32(x), ir::Value::from_u32(y)).as_u32()
}

/// `InstBuilder::imul`: appends the wrapping product of `x` and `y` to the current
/// block and gives its value, which did not exist before and has the
/// next number.
#[verifier::external_body]
pub(crate) fn emit_imul(fb: &mut FunctionBuilder<'_>, x: u32, y: u32) -> (r: u32)
    requires
        allowed(summarize(built(old(fb))), applied(NativeOp::Imul, seq![x, y], 0)),
    ensures
        built(final(fb)) == built(old(fb)).push(applied(NativeOp::Imul, seq![x, y], r)),
        fresh(summarize(built(old(fb))), applied(NativeOp::Imul, seq![x, y], r)),
{
    fb.ins().imul(ir::Value::from_u32(x), ir::Value::from_u32(y)).as_u32()
}

/// `InstBuilder::smulhi`: appends the high half of the signed product of `x` and `y` to the current
/// block and gives its value, which did not exist before and has the
/// next number.
#[verifier::external_body]
pub(crate) fn emit_smulhi(fb: &mut FunctionBuilder<'_>, x: u32, y: u32) -> (r: u32)
    requires
        allowed(summarize(built(old(fb))), applied(NativeOp::Smulhi, seq![x, y], 0)),
    ensures
        built(final(fb)) == built(old(fb)).push(applied(NativeOp::Smulhi, seq![x, y], r)),
        fresh(summarize(built(old(fb))), applied(NativeOp::Smulhi, seq![x, y], r)),
{
    fb.ins().smulhi(ir::Value::from_u32(x), ir::Value::from_u32(y)).as_u32()
}

/// `InstBuilder::umulhi`: appends the high half of the unsigned product of `x` and `y` to the current
/// block and gives its value, which did not exist before and has the
/// next number.
#[verifier::external_body]
pub(crate) fn emit_umulhi(fb: &mut FunctionBuilder<'_>, x: u32, y: u32) -> (r: u32)
    requires
        allowed(summarize(built(old(fb))), applied(NativeOp::Umulhi, seq![x, y], 0)),
    ensures
        built(final(fb)) == built(old(fb)).push(applied(NativeOp::Umulhi, seq![x, y], r)),
        fresh(summarize(built(old(fb))), applied(NativeOp::Umulhi, seq![x, y], r)),
{
    fb.ins().umulhi(ir::Value::from_u32(x), ir::Value::from_u32(y)).as_u32()
}

/// `InstBuilder::smax`: appends the signed maximum of `x` and `y` to the current
/// block and gives its value, which did not exist before and has the
/// next number.
#[verifier::external_body]
pub(crate) fn emit_smax(fb: &mut FunctionBuilder<'_>, x: u32, y: u32) -> (r: u32)
    requires
        allowed(summarize(built(old(fb))), applied(NativeOp::Smax, seq![x, y], 0)),
    ensures
        built(final(fb)) == built(old(fb)).push(applied(NativeOp::Smax, seq![x, y], r)),
        fresh(summarize(built(old(fb))), applied(NativeOp::Smax, seq![x, y], r)),
{
    fb.ins().smax(ir::Value::from_u32(x), ir::Value::from_u32(y)).as_u32()
}

/// `InstBuilder::umax`: appends the unsigned maximum of `x` and `y` to the current
/// block and gives its value, which did not exist before and has the
/// next number.
#[verifier::external_body]
pub(crate) fn emit_umax(fb: &mut FunctionBuilder<'_>, x: u32, y: u32) -> (r: u32)
    requires
        allowed(summarize(built(old(fb))), applied(NativeOp::Umax, seq![x, y], 0)),
    ensures
        built(final(fb)) == built(old(fb)).push(applied(NativeOp::Umax, seq![x, y], r)),
        fresh(summarize(built(old(fb))), applied(NativeOp::Umax, seq![x, y], r)),
{
    fb.ins().umax(ir::Value::from_u32(x), ir::Value::from_u32(y)).as_u32()
}

/// `InstBuilder::smin`: appends the signed minimum of `x` and `y` to the current
/// block and gives its value, which did not exist before and has the
/// next number.
#[verifier::external_body]
pub(crate) fn emit_smin(fb: &mut FunctionBuilder<'_>, x: u32, y: u32) -> (r: u32)
    requires
        allowed(summarize(built(old(fb))), applied(NativeOp::Smin, seq![x, y], 0)),
    ensures
        built(final(fb)) == built(old(fb)).push(applied(NativeOp::Smin, seq![x, y], r)),
        fresh(summarize(built(old(fb))), applied(NativeOp::Smin, seq![x, y], r)),
{
    fb.ins().smin(ir::Value::from_u32(x), ir::Value::from_u32(y)).as_u32()
}

/// `InstBuilder::umin`: appends the unsigned minimum of `x` and `y` to the current
/// block and gives its value, which did not exist before and has the
/// next number.
#[verifier::external_body]
pub(crate) fn emit_umin(fb: &mut FunctionBuilder<'_>, x: u32, y: u32) -> (r: u32)
    requires
        allowed(summarize(built(old(fb))), applied(NativeOp::Umin, seq![x, y], 0)),
    ensures
        built(final(fb)) == built(old(fb)).push(applied(NativeOp::Umin, seq![x, y], r)),
        fresh(summarize(built(old(fb))), applied(NativeOp::Umin, seq![x, y], r)),
{
    fb.ins().umin(ir::Value::from_u32(x), ir::Value::from_u32(y)).as_u32()
}

/// `InstBuilder::rotl`: appends the rotation to the left of `x` and `y` to the current
/// block and gives its value, which did not exist before and has the
/// next number.
#[verifier::external_body]
pub(crate) fn emit_rotl(fb: &mut FunctionBuilder<'_>, x: u32, y: u32) -> (r: u32)
    requires
        allowed(summarize(built(old(fb))), applied(NativeOp::Rotl, seq![x, y], 0)),
    ensures
        built(final(fb)) == built(old(fb)).push(applied(NativeOp::Rotl, seq![x, y], r)),
        fresh(summarize(built(old(fb))), applied(NativeOp::Rotl, seq![x, y], r)),
{
    fb.ins().rotl(ir::Value::from_u32(x), ir::Value::from_u32(y)).as_u32()
}

/// `InstBuilder::rotr`: appends the rotation to the right of `x` and `y` to the current
/// block and gives its value, which did not exist before and has the
/// next number.
#[verifier::external_body]
pub(crate) fn emit_rotr(fb: &mut FunctionBuilder<'_>, x: u32, y: u32) -> (r: u32)
    requires
        allowed(summarize(built(old(fb))), applied(NativeOp::Rotr, seq![x, y], 0)),
    ensures
        built(final(fb)) == built(old(fb)).push(applied(NativeOp::Rotr, seq![x, y], r)),
        fresh(summarize(built(old(fb))), applied(NativeOp::Rotr, seq![x, y], r)),
{
    fb.ins().rotr(ir::Value::from_u32(x), ir::Value::from_u32(y)).as_u32()
}

/// `InstBuilder::ishl`: appends the shift to the left of `x` and `y` to the current
/// block and gives its value, which did not exist before and has the
/// next number.
#[verifier::external_body]
pub(crate) fn emit_ishl(fb: &mut FunctionBuilder<'_>, x: u32, y: u32) -> (r: u32)
    requires
        allowed(summarize(built(old(fb))), applied(NativeOp::Ishl, seq![x, y], 0)),
    ensures
        built(final(fb)) == built(old(fb)).push(applied(NativeOp::Ishl, seq![x, y], r)),
        fresh(summarize(built(old(fb))), applied(NativeOp::Ishl, seq![x, y], r)),
{
    fb.ins().ishl(ir::Value::from_u32(x), ir::Value::from_u32(y)).as_u32()
}

/// `InstBuilder::sshr`: appends the arithmetic shift to the right of `x` and `y` to the current
/// block and gives its value, which did not exist before and has the
/// next number.
#[verifier::external_body]
pub(crate) fn emit_sshr(fb: &mut FunctionBuilder<'_>, x: u32, y: u32) -> (r: u32)
    requires
        allowed(summarize(built(old(fb))), applied(NativeOp::Sshr, seq![x, y], 0)),
    ensures
        built(final(fb)) == built(old(fb)).push(applied(NativeOp::Sshr, seq![x, y], r)),
        fresh(summarize(built(old(fb))), applied(NativeOp::Sshr, seq![x, y], r)),
{
    fb.ins().sshr(ir::Value::from_u32(x), ir::Value::from_u32(y)).as_u32()
}

/// `InstBuilder::ushr`: appends the logical shift to the right of `x` and `y` to the current
/// block and gives its value, which did not exist before and has the
/// next number.
#[verifier::external_body]
pub(crate) fn emit_ushr(fb: &mut FunctionBuilder<'_>, x: u32, y: u32) -> (r: u32)
    requires
        allowed(summarize(built(old(fb))), applied(NativeOp::Ushr, seq![x, y], 0)),
    ensures
        built(final(fb)) == built(old(fb)).push(applied(NativeOp::Ushr, seq![x, y], r)),
        fresh(summarize(built(old(fb))), applied(NativeOp::Ushr, seq![x, y], r)),
{
    fb.ins().ushr(ir::Value::from_u32(x), ir::Value::from_u32(y)).as_u32()
}

/// `InstBuilder::icmp`: appends the comparison of `x` with `y` and gives its
/// value, which did not exist before and has the
/// next number.
#[verifier::external_body]
pub(crate) fn emit_icmp(fb: &mut FunctionBuilder<'_>, cc: Compare, x: u32, y: u32) -> (r: u32)
    requires
        allowed(summarize(built(old(fb))), applied(NativeOp::Icmp(cc), seq![x, y], 0)),
    ensures
        built(final(fb)) == built(old(fb)).push(applied(NativeOp::Icmp(cc), seq![x, y], r)),
        fresh(summarize(built(old(fb))), applied(NativeOp::Icmp(cc), seq![x, y], r)),
{
    let cc = match cc {
        Compare::Equal => IntCC::Equal,
        Compare::NotEqual => IntCC::NotEqual,
        Compare::SignedLessThan => IntCC::SignedLessThan,
        Compare::SignedGreaterThanOrEqual => IntCC::SignedGreaterThanOrEqual,
        Compare::SignedGreaterThan => IntCC::SignedGreaterThan,
        Compare::SignedLessThanOrEqual => IntCC::SignedLessThanOrEqual,
        Compare::UnsignedLessThan => IntCC::UnsignedLessThan,
        Compare::UnsignedGreaterThanOrEqual => IntCC::UnsignedGreaterThanOrEqual,
        Compare::UnsignedGreaterThan => IntCC::UnsignedGreaterThan,
        Compare::UnsignedLessThanOrEqual => IntCC::UnsignedLessThanOrEqual,
    };
    fb.ins().icmp(cc, ir::Value::from_u32(x), ir::Value::from_u32(y)).as_u32()
}

/// `InstBuilder::select`: appends the choice between `x` and `y` by `c` and
/// gives its value, which did not exist before and has the
/// next number.
#[verifier::external_body]
pub(crate) fn emit_select(fb: &mut FunctionBuilder<'_>, c: u32, x: u32, y: u32) -> (r: u32)
    requires
        allowed(summarize(built(old(fb))), applied(NativeOp::Select, seq![c, x, y], 0)),
    ensures
        built(final(fb)) == built(old(fb)).push(applied(NativeOp::Select, seq![c, x, y], r)),
        fresh(summarize(built(old(fb))), applied(NativeOp::Select, seq![c, x, y], r)),
{
    fb.ins().select(ir::Value::from_u32(c), ir::Value::from_u32(x), ir::Value::from_u32(y)).as_u32()
}

/// A target triple.
#[verifier::external_type_specification]
#[verifier::external_body]
pub struct ExTriple(target_lexicon::Triple);

/// The settings of the code generator while they can still be changed.
#[verifier::external_type_specification]
#[verifier::external_body]
pub struct ExSettingsBuilder(cranelift_codegen::settings::Builder);

/// Why a setting was refused.
#[verifier::external_type_specification]
#[verifier::external_body]
pub struct ExSetError(cranelift_codegen::settings::SetError);

/// The settings of the code generator, fixed.
#[verifier::external_type_specification]
#[verifier::external_body]
pub struct ExFlags(cranelift_codegen::settings::Flags);

/// What an object module is made from.
#[verifier::external_type_specification]
#[verifier::external_body]
pub struct ExObjectBuilder(cranelift_object::ObjectBuilder);

/// A module that collects functions and becomes an object file.
#[verifier::external_type_specification]
#[verifier::external_body]
pub struct ExObjectModule(cranelift_object::ObjectModule);

/// A closed module, ready to be written out.
#[verifier::external_type_specification]
#[verifier::external_body]
pub struct ExObjectProduct(cranelift_object::ObjectProduct);

/// Why a module refused a declaration or a definition.
#[verifier::external_type_specification]
#[verifier::external_body]
pub struct ExModuleError(cranelift_module::ModuleError);

/// Why an object could not be written out.
#[verifier::external_type_specification]
#[verifier::external_body]
pub struct ExWriteError(cranelift_object::object::write::Error);

/// Whether a text names a target triple.
pub uninterp spec fn readable(text: Seq<char>) -> bool;

/// The text that a target triple was read from.
pub uninterp spec fn triple_text(t: &target_lexicon::Triple) -> Seq<char>;

/// The optimisation level that was set, if one was.
pub uninterp spec fn level_of(b: &cranelift_codegen::settings::Builder) -> Option<Seq<char>>;

/// The optimisation level that the settings were fixed with, if one was set.
pub uninterp spec fn level_fixed(f: &cranelift_codegen::settings::Flags) -> Option<Seq<char>>;

/// Whether the code generator makes objects for a target with these
/// settings.
pub uninterp spec fn supported(setup: Setup) -> bool;

/// What a builder of objects was made with.
pub uninterp spec fn planned(b: &cranelift_object::ObjectBuilder) -> Setup;

/// What a module holds.
pub uninterp spec fn contents(m: &cranelift_object::ObjectModule) -> Image;

/// What a closed module holds.
pub uninterp spec fn product(p: &cranelift_object::ObjectProduct) -> Image;

/// The kind of a module's failure.
pub uninterp spec fn kind_of(e: &cranelift_module::ModuleError) -> ModuleFailure;

/// What a module made with `setup` answers when a declared function that
/// has no body yet is given the body `f`: nothing, or the failure of the
/// code generator on `f`. Compiling reads the target and the function, and
/// nothing else of the module.
pub uninterp spec fn defining(setup: Setup, f: NativeFunction) -> Option<ModuleFailure>;

/// The bytes of the object file of a closed module, where it can be
/// written.
pub uninterp spec fn writing(image: Image) -> Option<Seq<u8>>;

/// `Triple::from_str`: reads a target triple.
#[verifier::external_body]
pub(crate) fn parse_triple(name: &str) -> (r: Option<target_lexicon::Triple>)
    ensures
        r is Some <==> readable(name@),
        r matches Some(t) ==> triple_text(&t) == name@,
{
    name.parse::<target_lexicon::Triple>().ok()
}

/// `settings::builder`: the settings of the code generator, at their
/// defaults.
#[verifier::external_body]
pub(crate) fn settings_builder() -> (r: cranelift_codegen::settings::Builder)
    ensures
        level_of(&r) is None,
{
    cranelift_codegen::settings::builder()
}

/// `Configurable::set` on the setting `opt_level`, which takes one of three
/// values and refuses every other. No other setting can be changed through
/// this library, so each stays at its default.
#[verifier::external_body]
pub(crate) fn set_opt_level(b: &mut cranelift_codegen::settings::Builder, value: &str) -> (r: Result<
    (),
    cranelift_codegen::settings::SetError,
>)
    ensures
        r is Ok <==> value@ == "none"@ || value@ == "speed"@ || value@ == "speed_and_size"@,
        r is Ok ==> level_of(final(b)) == Some(value@),
        r is Err ==> level_of(final(b)) == level_of(old(b)),
{
    b.set("opt_level", value)
}

/// `Flags::new`: the settings, fixed.
#[verifier::external_body]
pub(crate) fn flags_new(b: cranelift_codegen::settings::Builder) -> (r: cranelift_codegen::settings::Flags)
    ensures
        level_fixed(&r) == level_of(&b),
{
    cranelift_codegen::settings::Flags::new(b)
}

/// `isa::lookup`, `isa::Builder::finish` and `ObjectBuilder::new` in a row:
/// a builder of objects for the target, named `name`, or nothing where the
/// target is not supported. The three stand in one place because what
/// passes between them cannot be named here. The name holds no character
/// of code zero: it becomes a symbol of the object, and the writer of
/// objects takes no such symbol.
#[verifier::external_body]
pub(crate) fn object_builder(
    triple: target_lexicon::Triple,
    flags: cranelift_codegen::settings::Flags,
    name: &str,
) -> (r: Option<cranelift_object::ObjectBuilder>)
    requires
        !name@.contains('\0'),
    ensures
        r is Some <==> supported(
            (Setup { triple: triple_text(&triple), level: level_fixed(&flags), name: name@ }),
        ),
        r matches Some(b) ==> planned(&b) == (Setup {
            triple: triple_text(&triple),
            level: level_fixed(&flags),
            name: name@,
        }),
{
    let isa = cranelift_codegen::isa::lookup(triple).ok()?.finish(flags).ok()?;
    cranelift_object::ObjectBuilder::new(isa, name, cranelift_module::default_libcall_names()).ok()
}

/// `ObjectModule::new`: a module that was asked nothing yet.
#[verifier::external_body]
pub(crate) fn object_module(b: cranelift_object::ObjectBuilder) -> (m: cranelift_object::ObjectModule)
    ensures
        contents(&m) == vacant(planned(&b)),
{
    cranelift_object::ObjectModule::new(b)
}

/// `Signature::clear` on the signature of the function of `ctx`: the
/// signature takes and gives nothing, under the convention `c`.
#[verifier::external_body]
pub(crate) fn reset_signature(ctx: &mut cranelift_codegen::Context, c: Convention)
    ensures
        held(final(ctx)) == (NativeFunction { signature: bare(c), body: held(old(ctx)).body }),
{
    ctx.func.signature.clear(match c {
        Convention::Fast => cranelift_codegen::isa::CallConv::Fast,
        Convention::SystemV => cranelift_codegen::isa::CallConv::SystemV,
        Convention::WindowsFastcall => cranelift_codegen::isa::CallConv::WindowsFastcall,
        Convention::AppleAarch64 => cranelift_codegen::isa::CallConv::AppleAarch64,
    });
}

/// `AbiParam::new`, pushed on the parameters of the signature of the
/// function of `ctx`.
#[verifier::external_body]
pub(crate) fn add_param(ctx: &mut cranelift_codegen::Context, ty: NativeTy)
    ensures
        held(final(ctx)) == (NativeFunction {
            signature: NativeSignature {
                params: held(old(ctx)).signature.params.push(ty),
                ..held(old(ctx)).signature
            },
            body: held(old(ctx)).body,
        }),
{
    let ty = match ty {
        NativeTy::I8 => types::I8,
        NativeTy::I64 => types::I64,
        NativeTy::I128 => types::I128,
    };
    ctx.func.signature.params.push(ir::AbiParam::new(ty));
}

/// `AbiParam::new`, pushed on the results of the signature of the function
/// of `ctx`.
#[verifier::external_body]
pub(crate) fn add_return(ctx: &mut cranelift_codegen::Context, ty: NativeTy)
    ensures
        held(final(ctx)) == (NativeFunction {
            signature: NativeSignature {
                returns: held(old(ctx)).signature.returns.push(ty),
                ..held(old(ctx)).signature
            },
            body: held(old(ctx)).body,
        }),
{
    let ty = match ty {
        NativeTy::I8 => types::I8,
        NativeTy::I64 => types::I64,
        NativeTy::I128 => types::I128,
    };
    ctx.func.signature.returns.push(ir::AbiParam::new(ty));
}

/// `Module::declare_function` with the signature of the function of `ctx`,
/// on a module that was asked less than it can number. The answer is the
/// one that [`declaring`] states, and the module remembers the request with
/// its answer.
#[verifier::external_body]
pub(crate) fn declare_function(
    m: &mut cranelift_object::ObjectModule,
    name: &str,
    visibility: Visibility,
    ctx: &cranelift_codegen::Context,
) -> (r: Result<u32, cranelift_module::ModuleError>)
    requires
        contents(old(m)).requests.len() < NUMBER_LIMIT,
    ensures
        declaring(
            contents(old(m)).requests,
            (Declaration { name: name@, visibility, signature: held(ctx).signature }),
        ) == (match r {
            Ok(id) => Ok::<u32, ModuleFailure>(id),
            Err(e) => Err::<u32, ModuleFailure>(kind_of(&e)),
        }),
        contents(final(m)) == contents(old(m)).with(
            (Request::Declare {
                declaration: Declaration { name: name@, visibility, signature: held(ctx).signature },
                answer: match r {
                    Ok(id) => Ok::<u32, ModuleFailure>(id),
                    Err(e) => Err::<u32, ModuleFailure>(kind_of(&e)),
                },
            }),
        ),
{
    let linkage = match visibility {
        Visibility::Local => cranelift_module::Linkage::Local,
        Visibility::Export => cranelift_module::Linkage::Export,
    };
    m.declare_function(name, linkage, &ctx.func.signature).map(|id| id.as_u32())
}

/// `Module::define_function`: compiles the function of `ctx` as the body of
/// the declared function `id`, which has no body yet. Whether the code
/// generator takes the function depends on the module and the function;
/// where it does, the module remembers the request.
#[verifier::external_body]
pub(crate) fn define_function(
    m: &mut cranelift_object::ObjectModule,
    id: u32,
    ctx: &mut cranelift_codegen::Context,
) -> (r: Result<(), cranelift_module::ModuleError>)
    requires
        contents(old(m)).declared().contains(id),
        !contents(old(m)).defined().contains(id),
    ensures
        match r {
            Ok(()) => defining(contents(old(m)).setup, held(old(ctx))) is None && contents(
                final(m),
            ) == contents(old(m)).with(Request::Define { id, function: held(old(ctx)) }),
            Err(e) => defining(contents(old(m)).setup, held(old(ctx))) == Some(kind_of(&e)),
        },
{
    m.define_function(cranelift_module::FuncId::from_u32(id), ctx)
}

/// `ObjectModule::finish`: closes a module in which every declared function
/// is defined.
#[verifier::external_body]
pub(crate) fn finish(m: cranelift_object::ObjectModule) -> (r: cranelift_object::ObjectProduct)
    requires
        contents(&m).declared().subset_of(contents(&m).defined()),
    ensures
        product(&r) == contents(&m),
{
    m.finish()
}

/// `ObjectProduct::emit`: the bytes of the object file.
#[verifier::external_body]
pub(crate) fn emit_object(p: cranelift_object::ObjectProduct) -> (r: Result<
    Vec<u8>,
    cranelift_object::object::write::Error,
>)
    ensures
        match r {
            Ok(bytes) => writing(product(&p)) == Some(bytes@),
            Err(_) => writing(product(&p)) is None,
        },
{
    p.emit()
}

/// Tells the kinds of `ModuleError` apart, and among the failures of
/// compilation the one that says that something is not supported.
#[verifier::external_body]
pub(crate) fn failure_kind(e: &cranelift_module::ModuleError) -> (r: ModuleFailure)
    ensures
        r == kind_of(e),
{
    match e {
        cranelift_module::ModuleError::Undeclared(..) => ModuleFailure::Undeclared,
        cranelift_module::ModuleError::IncompatibleDeclaration(..) => ModuleFailure::IncompatibleDeclaration,
        cranelift_module::ModuleError::IncompatibleSignature(..) => ModuleFailure::IncompatibleSignature,
        cranelift_module::ModuleError::DuplicateDefinition(..) => ModuleFailure::DuplicateDefinition,
        cranelift_module::ModuleError::InvalidImportDefinition(..) => ModuleFailure::InvalidImportDefinition,
        cranelift_module::ModuleError::Compilation(cranelift_codegen::CodegenError::Unsupported(..)) => ModuleFailure::Unsupported,
        cranelift_module::ModuleError::Compilation(..) => ModuleFailure::Compilation,
        cranelift_module::ModuleError::Allocation { .. } => ModuleFailure::Allocation,
        cranelift_module::ModuleError::Backend(..) => ModuleFailure::Backend,
        cranelift_module::ModuleError::Flag(..) => ModuleFailure::Flag,
    }
}

} // verus!
