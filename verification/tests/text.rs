use bytecode_backend::bytecode::{Function, Inst, Program, Signature, VarId};
use bytecode_backend::error::DecodeError;
use bytecode_backend::ir_bytecode::{BlockId, Fun, Id, Prog};
use bytecode_backend::ir_op::{Op11, Op21, Op31};
use bytecode_backend::ir_ty::Ty;
use bytecode_backend::phantom::Phantom;
use bytecode_backend::prelude::{map_slice, max};
use bytecode_backend::text::write_decimal;

fn function(name: &str, inputs: Vec<Ty>, outputs: Vec<Ty>) -> Function {
    Function {
        name: name.to_string(),
        signature: Signature { inputs, outputs },
        code: vec![Inst::Ret(vec![VarId(0)])],
    }
}

#[test]
fn numbers_are_written_in_decimal() {
    for (n, want) in [
        (0usize, "0"),
        (7, "7"),
        (9, "9"),
        (10, "10"),
        (11, "11"),
        (99, "99"),
        (100, "100"),
        (1203, "1203"),
        (65535, "65535"),
        (4294967295, "4294967295"),
    ] {
        let mut out = String::from("#");
        write_decimal(&mut out, n);
        assert_eq!(out, format!("#{want}"));
    }
    assert_eq!(Id(0).to_text(), "0");
    assert_eq!(Id(65535).to_text(), "65535");
    assert_eq!(BlockId(42).to_text(), "42");
}

#[test]
fn types_and_operations_have_names() {
    assert_eq!(Ty::Bool.name(), "Bool");
    assert_eq!(Ty::I6.name(), "I6");
    assert_eq!(Ty::I64.name(), "I64");
    assert_eq!(Ty::I128.name(), "I128");
    assert_eq!(Ty::FunRef.name(), "FunRef");
    assert_eq!(Ty::Ref.name(), "Ref");
    assert_eq!(Op11::BoolNot.name(), "BoolNot");
    assert_eq!(Op11::I64ToI6.name(), "I64ToI6");
    assert_eq!(Op21::I64MulFullS.name(), "I64MulFullS");
    assert_eq!(Op21::I64Sub.name(), "I64Sub");
    assert_eq!(Op31::I64Sel.name(), "I64Sel");
    for t in 0..Op21::VARIANT_COUNT as u8 {
        let op = Op21::decode(t).unwrap();
        assert_eq!(op.name(), format!("{op:?}"));
    }
    for t in 0..Op11::VARIANT_COUNT as u8 {
        let op = Op11::decode(t).unwrap();
        assert_eq!(op.name(), format!("{op:?}"));
    }
}

#[test]
fn a_program_is_listed_by_the_headings_of_its_functions() {
    let program = Program {
        functions: vec![
            function("foo", vec![Ty::I64, Ty::Bool], vec![Ty::I64]),
            function("nothing", vec![], vec![]),
            function("wide", vec![Ty::I128; 11], vec![Ty::I6, Ty::Ref, Ty::FunRef]),
        ],
    };
    let bytes = program.encode().unwrap();
    let text = Prog::new(&bytes).to_text().unwrap();
    assert_eq!(
        text,
        "function foo ( %0:I64 %1:Bool ) -> ( I64 ):\n\n\
         function nothing ( ) -> ( ):\n\n\
         function wide ( %0:I128 %1:I128 %2:I128 %3:I128 %4:I128 %5:I128 %6:I128 %7:I128 %8:I128 %9:I128 %10:I128 ) -> ( I6 Ref FunRef ):\n\n\
         \n"
    );
    assert_eq!(Prog::new(&[]).to_text().unwrap(), "\n");
    let first = u32::from_le_bytes([bytes[0], bytes[1], bytes[2], bytes[3]]) as usize;
    let mut out = String::from("> ");
    Fun::new(&bytes[4..4 + first]).write_heading(&mut out).unwrap();
    assert_eq!(out, "> function foo ( %0:I64 %1:Bool ) -> ( I64 ):\n\n");
}

#[test]
fn a_listing_stops_at_the_first_defect() {
    let program = Program { functions: vec![function("foo", vec![Ty::I64], vec![])] };
    let good = program.encode().unwrap();
    let mut bytes = good.clone();
    bytes[12] = 0xff;
    assert_eq!(Prog::new(&bytes).to_text(), Err(DecodeError::InvalidName));
    let mut bytes = good.clone();
    bytes[19] = 77;
    assert_eq!(Prog::new(&bytes).to_text(), Err(DecodeError::InvalidTag));
    assert_eq!(Prog::new(&good[..9]).to_text(), Err(DecodeError::Truncated));
    // the instructions are not read for the listing
    let mut bytes = good.clone();
    let n = bytes.len();
    bytes[n - 5] = 0xee;
    assert!(Prog::new(&bytes).to_text().is_ok());
    assert_eq!(Prog::new(&bytes).decode().err(), Some(DecodeError::InvalidTag));
}

#[test]
fn helpers() {
    assert_eq!(max(3, 9), 9);
    assert_eq!(max(9, 3), 9);
    assert_eq!(max(4, 4), 4);
    assert_eq!(map_slice(&[1u8, 2, 3], |x: &u8| *x as u32 * 10), vec![10, 20, 30]);
    assert_eq!(map_slice(&[] as &[u8], |x: &u8| *x), Vec::<u8>::new());
    let a: Phantom<str> = Phantom::new();
    let b = a;
    let _ = (a, b, Phantom::<u8>::default());
}
