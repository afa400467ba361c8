use bytecode_backend::backend::{
    classify, compile, compile_bytes, compile_for, conclude, lower_function, Target,
};
use bytecode_backend::codegen::{Convention, ModuleFailure};
use bytecode_backend::bytecode::{BlockId, Cond, Function, Inst, Program, Signature, VarId};
use bytecode_backend::error::{CompileError, DecodeError, LoweringError, TypeError};
use bytecode_backend::ir_op::{Op11, Op21, Op31};
use bytecode_backend::ir_ty::Ty;
use bytecode_backend::lower::{cost_of, fits, lower_op11, lower_op21, lower_op31, width_of};
use bytecode_backend::prelude::has_nul;
use bytecode_backend::native::{compile_valtype, Compare, NativeOp, NativeTy};
use bytecode_backend::typing::check_function;
use bytecode_backend::u6::u6;
use cranelift_codegen::ir::{types, AbiParam};
use cranelift_codegen::Context;
use cranelift_frontend::{FunctionBuilder, FunctionBuilderContext};

fn function(name: &str, inputs: Vec<Ty>, outputs: Vec<Ty>, code: Vec<Inst>) -> Function {
    Function { name: name.to_string(), signature: Signature { inputs, outputs }, code }
}

fn foo() -> Function {
    function(
        "foo",
        vec![Ty::I64],
        vec![Ty::I64],
        vec![
            Inst::ImmI64(13),
            Inst::Op21(Op21::I64Add, VarId(0), VarId(1)),
            Inst::Ret(vec![VarId(2)]),
        ],
    )
}

fn contains(haystack: &[u8], needle: &[u8]) -> bool {
    haystack.windows(needle.len()).any(|w| w == needle)
}

fn native(ty: Ty) -> types::Type {
    match compile_valtype(ty) {
        NativeTy::I8 => types::I8,
        NativeTy::I64 => types::I64,
        NativeTy::I128 => types::I128,
    }
}

/// The sizes of the tables after lowering `f` into a new builder.
fn table_sizes(f: &Function) -> (usize, usize, usize) {
    assert_eq!(check_function(f), Ok(()));
    assert!(fits(f));
    let mut ctx = Context::new();
    for ty in &f.signature.inputs {
        ctx.func.signature.params.push(AbiParam::new(native(*ty)));
    }
    for ty in &f.signature.outputs {
        ctx.func.signature.returns.push(AbiParam::new(native(*ty)));
    }
    let mut fbc = FunctionBuilderContext::new();
    let mut fb = FunctionBuilder::new(&mut ctx.func, &mut fbc);
    let st = lower_function(&mut fb, f);
    fb.finalize();
    assert!(!st.open);
    let mut distinct = st.values.clone();
    distinct.extend_from_slice(&st.temps);
    distinct.sort();
    distinct.dedup();
    assert_eq!(distinct.len(), st.values.len() + st.temps.len());
    let mut blocks = st.blocks.clone();
    blocks.sort();
    blocks.dedup();
    assert_eq!(blocks.len(), st.blocks.len());
    (st.values.len(), st.blocks.len(), st.temps.len())
}

#[test]
fn a_small_function_compiles_to_a_mach_o_object_that_exports_it() {
    let out = compile(&Program { functions: vec![foo()] }).unwrap();
    assert!(out.rejected.is_empty());
    assert_eq!(&out.object[..4], &[0xcf, 0xfa, 0xed, 0xfe]);
    assert!(contains(&out.object, b"_foo\0"));
}

#[test]
fn compiling_twice_gives_the_same_bytes() {
    let program = Program { functions: vec![foo(), branching()] };
    let a = compile(&program).unwrap();
    let b = compile(&program).unwrap();
    assert_eq!(a, b);
    let bytes = program.encode().unwrap();
    let c = compile_bytes(&bytes, &Target::apple_aarch64()).unwrap();
    let d = compile_bytes(&bytes, &Target::apple_aarch64()).unwrap();
    assert_eq!(c.object, d.object);
    assert_eq!(a.object, c.object);
}

#[test]
fn full_multiplication_grows_the_value_table_by_two() {
    let before = function("m", vec![Ty::I64, Ty::I64], vec![], vec![Inst::Ret(vec![])]);
    let signed = function(
        "m",
        vec![Ty::I64, Ty::I64],
        vec![],
        vec![Inst::Op21(Op21::I64MulFullS, VarId(0), VarId(1)), Inst::Ret(vec![])],
    );
    let unsigned = function(
        "m",
        vec![Ty::I64, Ty::I64],
        vec![Ty::I64, Ty::I64],
        vec![
            Inst::Op21(Op21::I64MulFullU, VarId(0), VarId(1)),
            Inst::Ret(vec![VarId(2), VarId(3)]),
        ],
    );
    let plain = function(
        "m",
        vec![Ty::I64, Ty::I64],
        vec![],
        vec![Inst::Op21(Op21::I64Mul, VarId(0), VarId(1)), Inst::Ret(vec![])],
    );
    assert_eq!(table_sizes(&before).0, 2);
    assert_eq!(table_sizes(&signed).0, 4);
    assert_eq!(table_sizes(&unsigned).0, 4);
    assert_eq!(table_sizes(&plain).0, 3);
    assert_eq!(lower_op21(Op21::I64MulFullS), vec![NativeOp::Imul, NativeOp::Smulhi]);
    assert_eq!(lower_op21(Op21::I64MulFullU), vec![NativeOp::Imul, NativeOp::Umulhi]);
    assert_eq!(lower_op21(Op21::I64Mul), vec![NativeOp::Imul]);
}

fn branching() -> Function {
    function(
        "branching",
        vec![Ty::I64, Ty::I64],
        vec![Ty::I64],
        vec![
            // block 0: to block 2 if x < y, passing (x, y); else to block 1, passing y
            Inst::If(
                Cond::Op21(Op21::I64IsLtS, VarId(0), VarId(1)),
                BlockId(2),
                vec![VarId(0), VarId(1)],
                BlockId(1),
                vec![VarId(1)],
            ),
            // block 1 (p)
            Inst::Block(vec![Ty::I64]),
            Inst::Op11(Op11::I64IsNonZero, VarId(2)),
            Inst::If(Cond::Var(VarId(3)), BlockId(3), vec![], BlockId(2), vec![VarId(2), VarId(2)]),
            // block 2 (a, b)
            Inst::Block(vec![Ty::I64, Ty::I64]),
            Inst::Op21(Op21::I64Sub, VarId(5), VarId(4)),
            Inst::Ret(vec![VarId(6)]),
            // block 3, which falls through into block 4
            Inst::Block(vec![]),
            Inst::ImmI64(7),
            Inst::Block(vec![]),
            Inst::If(
                Cond::Op11(Op11::I64IsNonZero, VarId(7)),
                BlockId(1),
                vec![VarId(7)],
                BlockId(5),
                vec![],
            ),
            Inst::Block(vec![]),
            Inst::Ret(vec![VarId(7)]),
        ],
    )
}

/// The numbers that a new builder gave while `f` was lowered: to the values,
/// to the blocks and to the temporaries.
fn numbers(f: &Function) -> (Vec<u32>, Vec<u32>, Vec<u32>) {
    assert_eq!(check_function(f), Ok(()));
    assert!(fits(f));
    let mut ctx = Context::new();
    let mut fbc = FunctionBuilderContext::new();
    let mut fb = FunctionBuilder::new(&mut ctx.func, &mut fbc);
    let st = lower_function(&mut fb, f);
    fb.finalize();
    (st.values, st.blocks, st.temps)
}

#[test]
fn the_builder_numbers_blocks_and_values_in_the_order_it_makes_them() {
    let (values, blocks, temps) = numbers(&branching());
    // the parameters of the native entry are values 0 and 1, the inputs 2 and 3;
    // the first fused condition is value 4, the second value 11
    assert_eq!(values, vec![2, 3, 5, 6, 7, 8, 9, 10]);
    assert_eq!(blocks, vec![0, 1, 2, 3, 4, 5, 6]);
    assert_eq!(temps, vec![0, 1, 4, 11]);
    let (values, blocks, temps) = numbers(&foo());
    assert_eq!((values, blocks, temps), (vec![1, 2, 3], vec![0, 1], vec![0]));
}

#[test]
fn a_split_makes_two_values_and_gives_the_second() {
    let halves = function(
        "halves",
        vec![Ty::I128],
        vec![Ty::I64],
        vec![
            Inst::Op11(Op11::I128HiI64, VarId(0)),
            Inst::ImmI64(1),
            Inst::Op21(Op21::I64Add, VarId(1), VarId(2)),
            Inst::Ret(vec![VarId(3)]),
        ],
    );
    let (values, blocks, temps) = numbers(&halves);
    // value 2 is the low half, which the function does not use
    assert_eq!(values, vec![1, 3, 4, 5]);
    assert_eq!(blocks, vec![0, 1]);
    assert_eq!(temps, vec![0]);
    let out = compile(&Program { functions: vec![halves] }).unwrap();
    assert!(out.rejected.is_empty());
}

#[test]
fn a_fused_split_is_numbered_like_any_other() {
    let a = function(
        "a",
        vec![Ty::I64],
        vec![],
        vec![
            Inst::If(Cond::Op11(Op11::I64IsNonZero, VarId(0)), BlockId(1), vec![], BlockId(1), vec![]),
            Inst::Block(vec![]),
            Inst::ImmBool(true),
            Inst::Ret(vec![]),
        ],
    );
    let (values, blocks, temps) = numbers(&a);
    assert_eq!(values, vec![1, 3]);
    assert_eq!(blocks, vec![0, 1, 2]);
    assert_eq!(temps, vec![0, 2]);
}

#[test]
fn tables_count_values_blocks_and_temporaries() {
    // values: two inputs, p, the flag, a, b, the difference, the constant;
    // blocks: the native entry and blocks 0 to 5;
    // temporaries: the two parameters of the native entry and two fused conditions
    assert_eq!(table_sizes(&branching()), (8, 7, 4));
    assert_eq!(table_sizes(&foo()), (3, 2, 1));
    let empty = function("e", vec![], vec![], vec![]);
    assert_eq!(table_sizes(&empty), (0, 2, 0));
    let forward = function(
        "fwd",
        vec![Ty::Bool],
        vec![],
        vec![
            Inst::If(Cond::Var(VarId(0)), BlockId(3), vec![], BlockId(1), vec![]),
            Inst::Block(vec![]),
            Inst::Ret(vec![]),
            Inst::Block(vec![]),
            Inst::Ret(vec![]),
            Inst::Block(vec![]),
        ],
    );
    assert_eq!(table_sizes(&forward), (1, 5, 1));
}

#[test]
fn control_flow_compiles() {
    let out = compile(&Program { functions: vec![branching()] }).unwrap();
    assert!(out.rejected.is_empty());
    assert!(contains(&out.object, b"_branching\0"));
}

#[test]
fn a_function_with_a_defect_is_listed_and_left_out() {
    let bad = function(
        "mistyped",
        vec![Ty::I64],
        vec![Ty::Bool],
        vec![Inst::Op11(Op11::BoolNot, VarId(0)), Inst::Ret(vec![VarId(1)])],
    );
    let worse = function("dangling", vec![], vec![], vec![Inst::Goto(BlockId(4), vec![])]);
    let program = Program { functions: vec![bad, foo(), worse, branching()] };
    let out = compile(&program).unwrap();
    assert_eq!(
        out.rejected,
        vec![
            (0, CompileError::Type(TypeError::OperandTypeMismatch)),
            (2, CompileError::Type(TypeError::UndeclaredBlock)),
        ]
    );
    assert!(contains(&out.object, b"_foo\0"));
    assert!(contains(&out.object, b"_branching\0"));
    assert!(!contains(&out.object, b"mistyped"));
    assert!(!contains(&out.object, b"dangling"));
    let alone = compile(&Program { functions: vec![foo(), branching()] }).unwrap();
    assert_eq!(out.object, alone.object);
}

#[test]
fn encoded_programs_compile_function_by_function() {
    let program = Program { functions: vec![foo(), branching(), foo2()] };
    let mut bytes = program.encode().unwrap();
    // spoil the only instruction tag of the last function
    let n = bytes.len();
    bytes[n - 3] = 0xee;
    let out = compile_bytes(&bytes, &Target::apple_aarch64()).unwrap();
    assert_eq!(out.rejected, vec![(2, CompileError::Decode(DecodeError::InvalidTag))]);
    assert!(contains(&out.object, b"_foo\0"));
    assert!(!contains(&out.object, b"foo2"));
    // a broken frame is the program's defect
    bytes.truncate(n - 1);
    assert_eq!(
        compile_bytes(&bytes, &Target::apple_aarch64()),
        Err(CompileError::Decode(DecodeError::Truncated))
    );
}

fn foo2() -> Function {
    function("foo2", vec![], vec![], vec![Inst::Ret(vec![])])
}

#[test]
fn targets() {
    let program = Program { functions: vec![foo()] };
    let elf = Target {
        triple: "aarch64-unknown-linux-gnu".to_string(),
        convention: Convention::SystemV,
        module_name: "unit".to_string(),
    };
    let out = compile_for(&program, &elf).unwrap();
    assert_eq!(&out.object[..4], b"\x7fELF");
    assert!(contains(&out.object, b"foo\0"));
    assert!(contains(&out.object, b"unit"));
    let unknown = Target { triple: "no-such-machine".to_string(), ..elf.clone() };
    assert_eq!(compile_for(&program, &unknown), Err(LoweringError::UnusableTarget));
    let absent = Target { triple: "s390x-unknown-linux-gnu".to_string(), ..elf.clone() };
    assert_eq!(compile_for(&program, &absent), Err(LoweringError::UnusableTarget));
    let d = Target::apple_aarch64();
    assert_eq!(d.triple, "aarch64-apple-darwin");
    assert_eq!(d.convention, Convention::AppleAarch64);
    assert_eq!(d.module_name, "???");
}

#[test]
fn clashing_declarations_are_signature_mismatches() {
    let only_foo = compile(&Program { functions: vec![foo()] }).unwrap();
    // the same name with another signature
    let other = function("foo", vec![], vec![], vec![Inst::Ret(vec![])]);
    let out = compile(&Program { functions: vec![foo(), other] }).unwrap();
    assert_eq!(out.rejected, vec![(1, CompileError::Lowering(LoweringError::SignatureMismatch))]);
    assert_eq!(out.object, only_foo.object);
    // the same function twice
    let out = compile(&Program { functions: vec![foo(), foo()] }).unwrap();
    assert_eq!(out.rejected, vec![(1, CompileError::Lowering(LoweringError::SignatureMismatch))]);
    assert_eq!(out.object, only_foo.object);
    // a name that no symbol can have
    let nul = function("a\0b", vec![], vec![], vec![Inst::Ret(vec![])]);
    let out = compile(&Program { functions: vec![nul, foo()] }).unwrap();
    assert_eq!(
        out.rejected,
        vec![(0, CompileError::Lowering(LoweringError::Refused))]
    );
    assert_eq!(out.object, only_foo.object);
}

#[test]
fn a_function_that_the_code_generator_refuses_is_listed_and_left_out() {
    // value 1 is defined on one path only, yet used where both paths meet
    let f = function(
        "one_sided",
        vec![Ty::Bool],
        vec![Ty::I64],
        vec![
            Inst::If(Cond::Var(VarId(0)), BlockId(1), vec![], BlockId(2), vec![]),
            Inst::Block(vec![]),
            Inst::ImmI64(1),
            Inst::Goto(BlockId(2), vec![]),
            Inst::Block(vec![]),
            Inst::Ret(vec![VarId(1)]),
        ],
    );
    assert_eq!(check_function(&f), Ok(()));
    let out = compile(&Program { functions: vec![foo(), f, branching()] }).unwrap();
    assert_eq!(
        out.rejected,
        vec![(1, CompileError::Lowering(LoweringError::Refused))]
    );
    assert!(!contains(&out.object, b"one_sided"));
    let alone = compile(&Program { functions: vec![foo(), branching()] }).unwrap();
    assert_eq!(out.object, alone.object);
}

#[test]
fn module_failures_map_to_lowering_errors() {
    assert_eq!(classify(ModuleFailure::IncompatibleSignature), LoweringError::SignatureMismatch);
    assert_eq!(classify(ModuleFailure::IncompatibleDeclaration), LoweringError::SignatureMismatch);
    assert_eq!(classify(ModuleFailure::DuplicateDefinition), LoweringError::SignatureMismatch);
    assert_eq!(classify(ModuleFailure::InvalidImportDefinition), LoweringError::SignatureMismatch);
    assert_eq!(classify(ModuleFailure::Undeclared), LoweringError::SignatureMismatch);
    assert_eq!(classify(ModuleFailure::Unsupported), LoweringError::UnsupportedOpcodeForTarget);
    assert_eq!(classify(ModuleFailure::Compilation), LoweringError::Refused);
    assert_eq!(classify(ModuleFailure::Backend), LoweringError::Refused);
    assert_eq!(classify(ModuleFailure::Allocation), LoweringError::Refused);
    assert_eq!(classify(ModuleFailure::Flag), LoweringError::Refused);
    let rejected = vec![(3usize, CompileError::Type(TypeError::ArityMismatch))];
    let done = conclude(Ok(vec![1, 2, 3]), rejected.clone()).unwrap();
    assert_eq!(done.object, vec![1, 2, 3]);
    assert_eq!(done.rejected, rejected);
    assert_eq!(
        conclude(Err(LoweringError::SignatureMismatch), rejected),
        Err(LoweringError::SignatureMismatch)
    );
}

#[test]
fn value_types_map_to_native_types() {
    assert_eq!(compile_valtype(Ty::Bool), NativeTy::I8);
    assert_eq!(compile_valtype(Ty::I6), NativeTy::I8);
    assert_eq!(compile_valtype(Ty::I64), NativeTy::I64);
    assert_eq!(compile_valtype(Ty::I128), NativeTy::I128);
    assert_eq!(compile_valtype(Ty::FunRef), NativeTy::I64);
    assert_eq!(compile_valtype(Ty::Ref), NativeTy::I64);
}

#[test]
fn opcodes_map_to_primitives() {
    assert_eq!(lower_op11(Op11::BoolNot), NativeOp::BxorImm(1));
    assert_eq!(lower_op11(Op11::I128HiI64), NativeOp::IsplitHi);
    assert_eq!(lower_op11(Op11::I128ToI64), NativeOp::Ireduce(NativeTy::I64));
    assert_eq!(lower_op11(Op11::I64IsNonZero), NativeOp::IcmpImm(Compare::NotEqual, 0));
    assert_eq!(lower_op11(Op11::I64ToI6), NativeOp::Ireduce(NativeTy::I8));
    assert_eq!(lower_op11(Op11::I64RevBytes), NativeOp::Bswap);
    assert_eq!(lower_op21(Op21::BoolEq), vec![NativeOp::Icmp(Compare::Equal)]);
    assert_eq!(lower_op21(Op21::I64IsGeU), vec![NativeOp::Icmp(Compare::UnsignedGreaterThanOrEqual)]);
    assert_eq!(lower_op21(Op21::I64ShrS), vec![NativeOp::Sshr]);
    assert_eq!(lower_op21(Op21::I64MulHiU), vec![NativeOp::Umulhi]);
    assert_eq!(lower_op31(Op31::I64Sel), NativeOp::Select);
}

/// A function that applies one operation to its inputs and returns what the
/// operation gives.
fn applying(name: &str, inputs: Vec<Ty>, outputs: Vec<Ty>, inst: Inst) -> Function {
    let first = inputs.len() as u16;
    let results = (0..outputs.len() as u16).map(|k| VarId(first + k)).collect();
    function(name, inputs, outputs, vec![inst, Inst::Ret(results)])
}

#[test]
fn every_operation_of_one_operand_has_a_lowering() {
    let mut functions = Vec::new();
    for t in 0..Op11::VARIANT_COUNT as u8 {
        let op = Op11::decode(t).unwrap();
        let (i, o) = op.types();
        functions.push(applying(&format!("op11_{t}"), i.to_vec(), o, Inst::Op11(op, VarId(0))));
    }
    let out = compile(&Program { functions }).unwrap();
    assert!(out.rejected.is_empty());
    assert!(contains(&out.object, b"_op11_12\0"));
}

#[test]
fn every_operation_of_two_operands_has_a_lowering() {
    let mut functions = Vec::new();
    for t in 0..Op21::VARIANT_COUNT as u8 {
        let op = Op21::decode(t).unwrap();
        let (i, o) = op.types();
        functions.push(
            applying(&format!("op21_{t}"), i.to_vec(), o, Inst::Op21(op, VarId(0), VarId(1))),
        );
    }
    let out = compile(&Program { functions }).unwrap();
    assert!(out.rejected.is_empty());
    assert!(contains(&out.object, b"_op21_32\0"));
}

#[test]
fn every_primitive_gives_the_last_of_the_values_it_makes() {
    for t in 0..Op11::VARIANT_COUNT as u8 {
        let op = Op11::decode(t).unwrap();
        let (i, o) = op.types();
        let f = applying("one", i.to_vec(), o, Inst::Op11(op, VarId(0)));
        // value 0 is the parameter of the native entry, value 1 the input
        let expected = if op == Op11::I128HiI64 { 3 } else { 2 };
        assert_eq!(numbers(&f), (vec![1, expected], vec![0, 1], vec![0]));
    }
    for t in 0..Op21::VARIANT_COUNT as u8 {
        let op = Op21::decode(t).unwrap();
        let (i, o) = op.types();
        let results = o.len() as u32;
        let f = applying("two", i.to_vec(), o, Inst::Op21(op, VarId(0), VarId(1)));
        let mut expected = vec![2, 3];
        expected.extend(4..4 + results);
        assert_eq!(numbers(&f), (expected, vec![0, 1], vec![0, 1]));
    }
    let (i, o) = Op31::I64Sel.types();
    let f = applying("sel", i.to_vec(), o, Inst::Op31(Op31::I64Sel, VarId(0), VarId(1), VarId(2)));
    assert_eq!(numbers(&f), (vec![3, 4, 5, 6], vec![0, 1], vec![0, 1, 2]));
    let imm = function(
        "imm",
        vec![],
        vec![],
        vec![Inst::ImmBool(true), Inst::ImmI6(u6::from(5)), Inst::ImmI64(9), Inst::Ret(vec![])],
    );
    assert_eq!(numbers(&imm), (vec![0, 1, 2], vec![0, 1], vec![]));
}

#[test]
fn every_operation_of_three_operands_has_a_lowering() {
    let (i, o) = Op31::I64Sel.types();
    let f = applying("sel", i.to_vec(), o, Inst::Op31(Op31::I64Sel, VarId(0), VarId(1), VarId(2)));
    let out = compile(&Program { functions: vec![f] }).unwrap();
    assert!(out.rejected.is_empty());
}

#[test]
fn every_comparison_fuses_into_a_branch() {
    let mut functions = Vec::new();
    for t in 0..Op21::VARIANT_COUNT as u8 {
        let op = Op21::decode(t).unwrap();
        let (i, o) = op.types();
        if o != vec![Ty::Bool] {
            continue;
        }
        functions.push(function(
            &format!("if21_{t}"),
            i.to_vec(),
            vec![],
            vec![
                Inst::If(Cond::Op21(op, VarId(0), VarId(1)), BlockId(1), vec![], BlockId(2), vec![]),
                Inst::Block(vec![]),
                Inst::Ret(vec![]),
                Inst::Block(vec![]),
            ],
        ));
    }
    for op in [Op11::BoolNot, Op11::I64IsNonZero] {
        let (i, _) = op.types();
        functions.push(function(
            &format!("if11_{}", op.tag()),
            i.to_vec(),
            vec![],
            vec![
                Inst::If(Cond::Op11(op, VarId(0)), BlockId(1), vec![], BlockId(1), vec![]),
                Inst::Block(vec![]),
            ],
        ));
    }
    assert_eq!(functions.len(), 16);
    let out = compile(&Program { functions }).unwrap();
    assert!(out.rejected.is_empty());
}

#[test]
fn immediates_and_references_compile() {
    let f = function(
        "imm",
        vec![Ty::Ref, Ty::FunRef, Ty::I128],
        vec![Ty::Bool, Ty::I6, Ty::I64, Ty::Ref, Ty::FunRef, Ty::I128],
        vec![
            Inst::ImmBool(true),
            Inst::ImmI6(u6::from(63)),
            Inst::ImmI64(u64::MAX),
            Inst::Ret(vec![VarId(3), VarId(4), VarId(5), VarId(0), VarId(1), VarId(2)]),
        ],
    );
    let out = compile(&Program { functions: vec![f] }).unwrap();
    assert!(out.rejected.is_empty());
}

#[test]
fn block_zero_can_be_jumped_to() {
    // counts down from its input to zero, going round through block 0
    let f = function(
        "countdown",
        vec![Ty::I64],
        vec![Ty::I64],
        vec![
            Inst::If(
                Cond::Op11(Op11::I64IsNonZero, VarId(0)),
                BlockId(1),
                vec![],
                BlockId(2),
                vec![],
            ),
            Inst::Block(vec![]),
            Inst::ImmI64(1),
            Inst::Op21(Op21::I64Sub, VarId(0), VarId(1)),
            Inst::Goto(BlockId(0), vec![VarId(2)]),
            Inst::Block(vec![]),
            Inst::Ret(vec![VarId(0)]),
        ],
    );
    assert_eq!(check_function(&f), Ok(()));
    assert_eq!(table_sizes(&f), (3, 4, 2));
    let out = compile(&Program { functions: vec![f] }).unwrap();
    assert!(out.rejected.is_empty());
    assert!(contains(&out.object, b"_countdown\0"));
    let wrong = function(
        "again",
        vec![Ty::I64],
        vec![],
        vec![Inst::Goto(BlockId(0), vec![])],
    );
    assert_eq!(check_function(&wrong), Err(TypeError::ArityMismatch));
}

#[test]
fn a_mixed_function_compiles() {
    let f = function(
        "mixed",
        vec![Ty::I64, Ty::I64],
        vec![Ty::I64, Ty::I64, Ty::I64, Ty::Bool, Ty::I64],
        vec![
            Inst::ImmI64(13),
            Inst::Goto(BlockId(1), vec![VarId(1), VarId(0)]),
            Inst::Block(vec![Ty::I64, Ty::I64]),
            Inst::Op11(Op11::I64Neg, VarId(3)),
            Inst::Op21(Op21::I64Add, VarId(3), VarId(4)),
            Inst::Op11(Op11::I64IsNonZero, VarId(0)),
            Inst::Op11(Op11::I64ToI6, VarId(1)),
            Inst::Op21(Op21::I64Ror, VarId(0), VarId(8)),
            Inst::Ret(vec![VarId(4), VarId(5), VarId(6), VarId(7), VarId(9)]),
        ],
    );
    assert_eq!(table_sizes(&f), (10, 3, 2));
    let out = compile(&Program { functions: vec![f] }).unwrap();
    assert!(out.rejected.is_empty());
}

#[test]
fn a_module_name_with_a_zero_character_makes_the_target_unusable() {
    let program = Program { functions: vec![] };
    let elf = Target {
        triple: "aarch64-unknown-linux-gnu".to_string(),
        convention: Convention::SystemV,
        module_name: "a\0b".to_string(),
    };
    assert_eq!(compile_for(&program, &elf), Err(LoweringError::UnusableTarget));
    let mach = Target { module_name: "\0".to_string(), ..Target::apple_aarch64() };
    assert_eq!(
        compile_for(&Program { functions: vec![foo()] }, &mach),
        Err(LoweringError::UnusableTarget)
    );
    let named = Target { module_name: "ab".to_string(), ..elf };
    assert!(compile_for(&program, &named).is_ok());
    assert!(has_nul("a\0b"));
    assert!(has_nul("\0"));
    assert!(!has_nul("ab"));
    assert!(!has_nul(""));
    assert!(!has_nul("z\u{e9}ro 0"));
}

#[test]
fn a_block_takes_sixty_five_thousand_five_hundred_and_thirty_six_parameters() {
    let most = function("most", vec![Ty::I64; 0x1_0000], vec![], vec![]);
    assert!(fits(&most));
    let (values, blocks, temps) = numbers(&most);
    assert_eq!(temps.len(), 0x1_0000);
    assert_eq!(temps[0xffff], 0xffff);
    assert_eq!(values[0], 0x1_0000);
    assert_eq!(values[0xffff], 0x1_ffff);
    assert_eq!(blocks, vec![0, 1]);
    let wide = function(
        "wide",
        vec![],
        vec![],
        vec![Inst::Goto(BlockId(1), vec![]), Inst::Block(vec![Ty::Bool; 0x1_0000])],
    );
    assert_eq!(check_function(&wide), Err(TypeError::ArityMismatch));
}

#[test]
fn a_function_beyond_the_limits_is_listed_as_too_large() {
    let inputs = function("inputs", vec![Ty::I64; 0x1_0001], vec![], vec![]);
    assert_eq!(check_function(&inputs), Ok(()));
    assert!(!fits(&inputs));
    let params = function(
        "params",
        vec![],
        vec![],
        vec![Inst::Ret(vec![]), Inst::Block(vec![Ty::Bool; 0x1_0001]), Inst::Ret(vec![])],
    );
    assert_eq!(check_function(&params), Ok(()));
    assert!(!fits(&params));
    assert!(fits(&foo()));
    assert!(fits(&branching()));
    let out = compile(&Program { functions: vec![inputs, foo(), params] }).unwrap();
    assert_eq!(
        out.rejected,
        vec![
            (0, CompileError::Lowering(LoweringError::TooLarge)),
            (2, CompileError::Lowering(LoweringError::TooLarge)),
        ]
    );
    let alone = compile(&Program { functions: vec![foo()] }).unwrap();
    assert_eq!(out.object, alone.object);
}

#[test]
fn each_instruction_costs_the_values_that_the_builder_makes_for_it() {
    assert_eq!(width_of(NativeOp::IsplitHi), 2);
    assert_eq!(width_of(NativeOp::Iadd), 1);
    assert_eq!(width_of(NativeOp::Iconst(NativeTy::I64, 3)), 1);
    assert_eq!(cost_of(&Inst::Block(vec![Ty::I64, Ty::Bool, Ty::I6])), 3);
    assert_eq!(cost_of(&Inst::Goto(BlockId(1), vec![VarId(0)])), 0);
    assert_eq!(cost_of(&Inst::Ret(vec![])), 0);
    assert_eq!(cost_of(&Inst::ImmBool(false)), 1);
    assert_eq!(cost_of(&Inst::ImmI64(4)), 1);
    assert_eq!(cost_of(&Inst::Op11(Op11::I64Neg, VarId(0))), 1);
    assert_eq!(cost_of(&Inst::Op11(Op11::I128HiI64, VarId(0))), 2);
    assert_eq!(cost_of(&Inst::Op21(Op21::I64Add, VarId(0), VarId(1))), 1);
    assert_eq!(cost_of(&Inst::Op21(Op21::I64MulFullS, VarId(0), VarId(1))), 2);
    assert_eq!(cost_of(&Inst::Op31(Op31::I64Sel, VarId(0), VarId(1), VarId(2))), 1);
    let var = Inst::If(Cond::Var(VarId(0)), BlockId(1), vec![], BlockId(1), vec![]);
    assert_eq!(cost_of(&var), 0);
    let fused = Inst::If(
        Cond::Op21(Op21::I64IsEq, VarId(0), VarId(1)),
        BlockId(1),
        vec![],
        BlockId(1),
        vec![],
    );
    assert_eq!(cost_of(&fused), 1);
}
