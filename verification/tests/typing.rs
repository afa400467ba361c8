use bytecode_backend::bytecode::{BlockId, Cond, Function, Inst, Signature, VarId};
use bytecode_backend::error::TypeError;
use bytecode_backend::ir_op::{Op11, Op21, Op31};
use bytecode_backend::ir_ty::Ty;
use bytecode_backend::typing::check_function;
use bytecode_backend::u6::u6;

fn function(inputs: Vec<Ty>, outputs: Vec<Ty>, code: Vec<Inst>) -> Function {
    Function { name: "f".to_string(), signature: Signature { inputs, outputs }, code }
}

#[test]
fn a_small_function_passes() {
    let f = function(
        vec![Ty::I64],
        vec![Ty::I64],
        vec![
            Inst::ImmI64(13),
            Inst::Op21(Op21::I64Add, VarId(0), VarId(1)),
            Inst::Ret(vec![VarId(2)]),
        ],
    );
    assert_eq!(check_function(&f), Ok(()));
}

#[test]
fn jump_with_two_arguments_to_a_block_of_two_parameters_passes() {
    let f = function(
        vec![Ty::I64, Ty::I64],
        vec![Ty::I64],
        vec![
            Inst::Goto(BlockId(1), vec![VarId(1), VarId(0)]),
            Inst::Block(vec![Ty::I64, Ty::I64]),
            Inst::Op21(Op21::I64Sub, VarId(2), VarId(3)),
            Inst::Ret(vec![VarId(4)]),
        ],
    );
    assert_eq!(check_function(&f), Ok(()));
}

#[test]
fn jump_with_the_wrong_number_of_arguments_is_rejected() {
    for args in [vec![], vec![VarId(0)], vec![VarId(0), VarId(1), VarId(0)]] {
        let f = function(
            vec![Ty::I64, Ty::I64],
            vec![],
            vec![
                Inst::Goto(BlockId(1), args),
                Inst::Block(vec![Ty::I64, Ty::I64]),
                Inst::Ret(vec![]),
            ],
        );
        assert_eq!(check_function(&f), Err(TypeError::ArityMismatch));
    }
}

#[test]
fn jump_with_an_argument_of_the_wrong_type_is_rejected() {
    let f = function(
        vec![Ty::I64, Ty::Bool],
        vec![],
        vec![
            Inst::Goto(BlockId(1), vec![VarId(0), VarId(1)]),
            Inst::Block(vec![Ty::I64, Ty::I64]),
            Inst::Ret(vec![]),
        ],
    );
    assert_eq!(check_function(&f), Err(TypeError::OperandTypeMismatch));
}

#[test]
fn branch_arms_are_checked_each_against_its_own_target() {
    let code = |then_args: Vec<VarId>, else_args: Vec<VarId>| {
        vec![
            Inst::If(Cond::Var(VarId(1)), BlockId(1), then_args, BlockId(2), else_args),
            Inst::Block(vec![Ty::I64]),
            Inst::Ret(vec![]),
            Inst::Block(vec![Ty::Bool, Ty::I64]),
            Inst::Ret(vec![]),
        ]
    };
    let ok = function(
        vec![Ty::I64, Ty::Bool],
        vec![],
        code(vec![VarId(0)], vec![VarId(1), VarId(0)]),
    );
    assert_eq!(check_function(&ok), Ok(()));
    let arity = function(vec![Ty::I64, Ty::Bool], vec![], code(vec![VarId(0)], vec![VarId(1)]));
    assert_eq!(check_function(&arity), Err(TypeError::ArityMismatch));
    let ty = function(
        vec![Ty::I64, Ty::Bool],
        vec![],
        code(vec![VarId(0)], vec![VarId(0), VarId(0)]),
    );
    assert_eq!(check_function(&ty), Err(TypeError::OperandTypeMismatch));
    let arity_first = function(vec![Ty::I64, Ty::Bool], vec![], code(vec![], vec![VarId(9)]));
    assert_eq!(check_function(&arity_first), Err(TypeError::ArityMismatch));
}

#[test]
fn mistyped_operand_is_rejected() {
    // an I64 where a Bool is required
    let f = function(
        vec![Ty::I64],
        vec![Ty::Bool],
        vec![Inst::Op11(Op11::BoolNot, VarId(0)), Inst::Ret(vec![VarId(1)])],
    );
    assert_eq!(check_function(&f), Err(TypeError::OperandTypeMismatch));
    // a Bool where an I6 shift amount is required
    let f = function(
        vec![Ty::I64, Ty::Bool],
        vec![],
        vec![Inst::Op21(Op21::I64Shl, VarId(0), VarId(1)), Inst::Ret(vec![])],
    );
    assert_eq!(check_function(&f), Err(TypeError::OperandTypeMismatch));
    // select with an I64 predicate
    let f = function(
        vec![Ty::I64],
        vec![],
        vec![Inst::Op31(Op31::I64Sel, VarId(0), VarId(0), VarId(0)), Inst::Ret(vec![])],
    );
    assert_eq!(check_function(&f), Err(TypeError::OperandTypeMismatch));
    // well typed
    let f = function(
        vec![Ty::I64, Ty::Bool],
        vec![Ty::I64],
        vec![
            Inst::ImmI6(u6::from(3)),
            Inst::Op21(Op21::I64Shl, VarId(0), VarId(2)),
            Inst::Op31(Op31::I64Sel, VarId(1), VarId(3), VarId(0)),
            Inst::Ret(vec![VarId(4)]),
        ],
    );
    assert_eq!(check_function(&f), Ok(()));
}

#[test]
fn use_before_definition_is_rejected() {
    // the function has one input, so value 1 is not defined yet
    let f = function(
        vec![Ty::I64],
        vec![],
        vec![Inst::Op21(Op21::I64Add, VarId(0), VarId(1)), Inst::Ret(vec![])],
    );
    assert_eq!(check_function(&f), Err(TypeError::UndeclaredVariable));
    // an instruction cannot use its own result
    let f = function(
        vec![],
        vec![],
        vec![Inst::ImmI64(1), Inst::Op11(Op11::I64Neg, VarId(1)), Inst::Ret(vec![])],
    );
    assert_eq!(check_function(&f), Err(TypeError::UndeclaredVariable));
    let f = function(vec![], vec![Ty::I64], vec![Inst::Ret(vec![VarId(0)])]);
    assert_eq!(check_function(&f), Err(TypeError::UndeclaredVariable));
    let f = function(vec![], vec![], vec![Inst::Goto(BlockId(0), vec![]), ]);
    assert_eq!(check_function(&f), Ok(()));
    // parameters count from index 0, and the first defined value follows them
    let f = function(
        vec![Ty::I64, Ty::I64],
        vec![Ty::I64],
        vec![
            Inst::ImmI64(5),
            Inst::Op21(Op21::I64Add, VarId(1), VarId(2)),
            Inst::Ret(vec![VarId(3)]),
        ],
    );
    assert_eq!(check_function(&f), Ok(()));
}

#[test]
fn full_multiplication_defines_two_values() {
    let f = function(
        vec![Ty::I64, Ty::I64],
        vec![Ty::I64, Ty::I64],
        vec![
            Inst::Op21(Op21::I64MulFullS, VarId(0), VarId(1)),
            Inst::Ret(vec![VarId(2), VarId(3)]),
        ],
    );
    assert_eq!(check_function(&f), Ok(()));
    let f = function(
        vec![Ty::I64, Ty::I64],
        vec![Ty::I64],
        vec![
            Inst::Op21(Op21::I64Mul, VarId(0), VarId(1)),
            Inst::Ret(vec![VarId(3)]),
        ],
    );
    assert_eq!(check_function(&f), Err(TypeError::UndeclaredVariable));
}

#[test]
fn undeclared_block_is_rejected() {
    let f = function(vec![], vec![], vec![Inst::Goto(BlockId(1), vec![])]);
    assert_eq!(check_function(&f), Err(TypeError::UndeclaredBlock));
    // a block may be named before the stream declares it
    let f = function(
        vec![],
        vec![],
        vec![Inst::Goto(BlockId(2), vec![]), Inst::Block(vec![]), Inst::Block(vec![]), Inst::Ret(vec![])],
    );
    assert_eq!(check_function(&f), Ok(()));
    // an instruction after a jump stands in no block
    let f = function(vec![], vec![], vec![Inst::Ret(vec![]), Inst::ImmI64(1)]);
    assert_eq!(check_function(&f), Err(TypeError::UndeclaredBlock));
    let f = function(vec![], vec![], vec![Inst::Ret(vec![]), Inst::Ret(vec![])]);
    assert_eq!(check_function(&f), Err(TypeError::UndeclaredBlock));
}

#[test]
fn return_must_match_the_signature() {
    let f = function(vec![Ty::I64], vec![Ty::I64], vec![Inst::Ret(vec![])]);
    assert_eq!(check_function(&f), Err(TypeError::ArityMismatch));
    let f = function(vec![Ty::I64], vec![], vec![Inst::Ret(vec![VarId(0)])]);
    assert_eq!(check_function(&f), Err(TypeError::ArityMismatch));
    let f = function(vec![Ty::Bool], vec![Ty::I64], vec![Inst::Ret(vec![VarId(0)])]);
    assert_eq!(check_function(&f), Err(TypeError::OperandTypeMismatch));
    let f = function(vec![Ty::Ref, Ty::FunRef], vec![Ty::FunRef, Ty::Ref], vec![Inst::Ret(vec![VarId(1), VarId(0)])]);
    assert_eq!(check_function(&f), Ok(()));
}

#[test]
fn falling_through_and_falling_off_the_end() {
    // falling into a block without parameters is a jump without arguments
    let f = function(vec![], vec![], vec![Inst::ImmI64(1), Inst::Block(vec![]), Inst::Ret(vec![])]);
    assert_eq!(check_function(&f), Ok(()));
    // falling into a block with parameters passes too few arguments
    let f = function(
        vec![],
        vec![],
        vec![Inst::ImmI64(1), Inst::Block(vec![Ty::I64]), Inst::Ret(vec![])],
    );
    assert_eq!(check_function(&f), Err(TypeError::ArityMismatch));
    // a stream that ends in an open block returns nothing
    let f = function(vec![Ty::I64], vec![], vec![Inst::ImmI64(1)]);
    assert_eq!(check_function(&f), Ok(()));
    let f = function(vec![Ty::I64], vec![], vec![]);
    assert_eq!(check_function(&f), Ok(()));
    let f = function(vec![Ty::I64], vec![Ty::I64], vec![Inst::ImmI64(1)]);
    assert_eq!(check_function(&f), Err(TypeError::ArityMismatch));
}

#[test]
fn fused_conditions_must_test_a_truth_value() {
    let branch = |c: Cond| {
        function(
            vec![Ty::I64, Ty::Bool],
            vec![],
            vec![
                Inst::If(c, BlockId(1), vec![], BlockId(1), vec![]),
                Inst::Block(vec![]),
                Inst::Ret(vec![]),
            ],
        )
    };
    assert_eq!(check_function(&branch(Cond::Var(VarId(1)))), Ok(()));
    assert_eq!(check_function(&branch(Cond::Var(VarId(0)))), Err(TypeError::OperandTypeMismatch));
    assert_eq!(check_function(&branch(Cond::Var(VarId(2)))), Err(TypeError::UndeclaredVariable));
    assert_eq!(check_function(&branch(Cond::Op11(Op11::I64IsNonZero, VarId(0)))), Ok(()));
    assert_eq!(check_function(&branch(Cond::Op11(Op11::BoolNot, VarId(1)))), Ok(()));
    assert_eq!(
        check_function(&branch(Cond::Op11(Op11::I64Neg, VarId(0)))),
        Err(TypeError::OperandTypeMismatch)
    );
    assert_eq!(
        check_function(&branch(Cond::Op11(Op11::I64IsNonZero, VarId(1)))),
        Err(TypeError::OperandTypeMismatch)
    );
    assert_eq!(check_function(&branch(Cond::Op21(Op21::I64IsLtS, VarId(0), VarId(0)))), Ok(()));
    assert_eq!(
        check_function(&branch(Cond::Op21(Op21::I64Add, VarId(0), VarId(0)))),
        Err(TypeError::OperandTypeMismatch)
    );
    assert_eq!(
        check_function(&branch(Cond::Op21(Op21::I64MulFullU, VarId(0), VarId(0)))),
        Err(TypeError::OperandTypeMismatch)
    );
    assert_eq!(
        check_function(&branch(Cond::Op21(Op21::I64IsEq, VarId(0), VarId(5)))),
        Err(TypeError::UndeclaredVariable)
    );
}

#[test]
fn the_first_defect_in_stream_order_is_reported() {
    let f = function(
        vec![Ty::I64],
        vec![],
        vec![
            Inst::Op11(Op11::BoolNot, VarId(0)),
            Inst::Goto(BlockId(9), vec![]),
        ],
    );
    assert_eq!(check_function(&f), Err(TypeError::OperandTypeMismatch));
    let f = function(
        vec![Ty::I64],
        vec![],
        vec![
            Inst::Goto(BlockId(9), vec![]),
            Inst::Op11(Op11::BoolNot, VarId(0)),
        ],
    );
    assert_eq!(check_function(&f), Err(TypeError::UndeclaredBlock));
    // operands are held in order
    let f = function(
        vec![Ty::Bool],
        vec![],
        vec![Inst::Op21(Op21::I64Add, VarId(0), VarId(7)), Inst::Ret(vec![])],
    );
    assert_eq!(check_function(&f), Err(TypeError::OperandTypeMismatch));
    let f = function(
        vec![Ty::Bool],
        vec![],
        vec![Inst::Op21(Op21::I64Add, VarId(7), VarId(0)), Inst::Ret(vec![])],
    );
    assert_eq!(check_function(&f), Err(TypeError::UndeclaredVariable));
}
