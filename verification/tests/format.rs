use bytecode_backend::bc::{field, iter_constant_sized, iter_variable_sized};
use bytecode_backend::buf::{ByteBuf, ByteCursor};
use bytecode_backend::bytecode::{BlockId, Cond, Function, Inst, Program, Signature, VarId};
use bytecode_backend::error::{DecodeError, EncodeError};
use bytecode_backend::ir_bytecode::{Fun, Inst as InstRef, InstList, InstTag, Prog};
use bytecode_backend::ir_op::{Op11, Op21, Op31};
use bytecode_backend::ir_ty::Ty;
use bytecode_backend::slice_ext::{ByteSliceExt, ByteSliceRefExt, SliceExt, SliceRefExt};
use bytecode_backend::u6::u6;

fn foo() -> Function {
    Function {
        name: "foo".to_string(),
        signature: Signature { inputs: vec![Ty::I64], outputs: vec![Ty::I64] },
        code: vec![
            Inst::ImmI64(13),
            Inst::Op21(Op21::I64Add, VarId(0), VarId(1)),
            Inst::Ret(vec![VarId(2)]),
        ],
    }
}

fn every_kind() -> Function {
    Function {
        name: "käse_🧀".to_string(),
        signature: Signature { inputs: vec![Ty::I64, Ty::Bool, Ty::I128], outputs: vec![] },
        code: vec![
            Inst::ImmBool(true),
            Inst::ImmBool(false),
            Inst::ImmI6(u6::from(63)),
            Inst::ImmI64(0x0102_0304_0506_0708),
            Inst::Op11(Op11::I64ToI6, VarId(0)),
            Inst::Op21(Op21::I64MulFullS, VarId(0), VarId(6)),
            Inst::Op31(Op31::I64Sel, VarId(1), VarId(0), VarId(6)),
            Inst::If(Cond::Var(VarId(1)), BlockId(1), vec![VarId(0)], BlockId(2), vec![]),
            Inst::Block(vec![Ty::I64]),
            Inst::If(
                Cond::Op11(Op11::I64IsNonZero, VarId(0)),
                BlockId(2),
                vec![],
                BlockId(2),
                vec![],
            ),
            Inst::Block(vec![]),
            Inst::If(
                Cond::Op21(Op21::I64IsLtS, VarId(0), VarId(6)),
                BlockId(3),
                vec![VarId(0), VarId(6)],
                BlockId(4),
                vec![VarId(3)],
            ),
            Inst::Block(vec![Ty::I64, Ty::I64]),
            Inst::Goto(BlockId(4), vec![VarId(4)]),
            Inst::Block(vec![Ty::Bool]),
            Inst::Ret(vec![]),
        ],
    }
}

#[test]
fn decoding_gives_name_signature_and_instruction_count() {
    let program = Program { functions: vec![foo()] };
    let bytes = program.encode().unwrap();
    let prog = Prog::new(&bytes);
    let mut funs = prog.fun_list().iter();
    let fun = funs.next().unwrap().unwrap();
    assert!(funs.next().is_none());
    assert_eq!(fun.name().unwrap(), "foo");
    let sig = fun.signature().unwrap();
    assert_eq!(sig.inputs().unwrap().to_vec(), vec![Ty::I64]);
    assert_eq!(sig.outputs().unwrap().len(), 1);
    assert_eq!(fun.input_ty_list().unwrap().to_vec(), vec![Ty::I64]);
    assert_eq!(fun.output_ty_list().unwrap().to_vec(), vec![Ty::I64]);
    let mut it = fun.inst_list().unwrap().iter();
    let mut count = 0;
    while let Some(inst) = it.next() {
        inst.unwrap();
        count += 1;
    }
    assert_eq!(count, 3);
}

#[test]
fn a_small_function_has_these_bytes() {
    let program = Program { functions: vec![foo()] };
    let bytes = program.encode().unwrap();
    let expected: Vec<u8> = vec![
        // length of the function record
        37, 0, 0, 0,
        // end of the name, end of the signature
        3, 0, 0, 0, 9, 0, 0, 0,
        // name
        b'f', b'o', b'o',
        // signature: end of inputs, inputs, outputs
        1, 0, 0, 0, 2, 2,
        // ImmI64(13)
        5, 13, 0, 0, 0, 0, 0, 0, 0,
        // Op21(I64Add, 0, 1)
        7, 4, 0, 0, 1, 0,
        // Ret([2])
        9, 1, 0, 2, 0,
    ];
    assert_eq!(bytes, expected);
}

#[test]
fn round_trip_of_a_program_with_every_instruction_kind() {
    let program = Program { functions: vec![foo(), every_kind(), foo()] };
    let bytes = program.encode().unwrap();
    let back = Prog::new(&bytes).decode().unwrap();
    assert_eq!(back, program);
    let each = Prog::new(&bytes).decode_each().unwrap();
    assert_eq!(each.len(), 3);
    assert_eq!(each[1].as_ref().unwrap(), &every_kind());
}

#[test]
fn round_trip_of_the_empty_program() {
    let program = Program { functions: vec![] };
    let bytes = program.encode().unwrap();
    assert!(bytes.is_empty());
    assert_eq!(Prog::new(&bytes).decode().unwrap(), program);
}

#[test]
fn block_with_missing_parameter_types_is_truncated() {
    // Block, five parameter types announced, three present.
    let bytes: Vec<u8> = vec![0, 5, 0, 2, 2, 2];
    let mut it = InstList::new(&bytes).iter();
    assert_eq!(it.next().unwrap().err(), Some(DecodeError::Truncated));
    assert!(it.next().is_none());
    assert_eq!(InstList::new(&bytes).decode().err(), Some(DecodeError::Truncated));
}

#[test]
fn block_with_all_parameter_types_present_decodes() {
    let bytes: Vec<u8> = vec![0, 5, 0, 0, 1, 2, 3, 4];
    let mut it = InstList::new(&bytes).iter();
    match it.next().unwrap().unwrap() {
        InstRef::Block(b) => {
            assert_eq!(
                b.params().to_vec(),
                vec![Ty::Bool, Ty::I6, Ty::I64, Ty::I128, Ty::FunRef]
            );
            let mut p = b.params().iter();
            assert_eq!(p.next(), Some(Ty::Bool));
            assert_eq!(b.params().len(), 5);
            assert_eq!(b.params().get(4), Ty::FunRef);
        }
        _ => panic!("not a block"),
    }
    assert!(it.next().is_none());
}

#[test]
fn invalid_tags_are_rejected() {
    assert_eq!(Ty::decode(6), Err(DecodeError::InvalidTag));
    assert_eq!(Ty::decode(5), Ok(Ty::Ref));
    assert_eq!(Ty::decode(0), Ok(Ty::Bool));
    assert_eq!(Op11::decode(13), Err(DecodeError::InvalidTag));
    assert_eq!(Op11::decode(12), Ok(Op11::I64ToI6));
    assert_eq!(Op21::decode(33), Err(DecodeError::InvalidTag));
    assert_eq!(Op21::decode(32), Ok(Op21::I64Sub));
    assert_eq!(Op21::decode(23), Ok(Op21::I64MulFullS));
    assert_eq!(Op31::decode(1), Err(DecodeError::InvalidTag));
    assert_eq!(Op31::decode(0), Ok(Op31::I64Sel));
    assert_eq!(InstTag::decode(10), Err(DecodeError::InvalidTag));
    assert_eq!(InstTag::decode(9), Ok(InstTag::Return));
    assert_eq!(InstTag::Return.tag(), 9);
    assert_eq!(Ty::I128.tag(), 3);
    assert_eq!(Op21::I64Add.tag(), 4);
    // instruction tag out of range
    assert_eq!(InstList::new(&[10, 0, 0]).decode().err(), Some(DecodeError::InvalidTag));
    // type tag out of range inside a block
    assert_eq!(InstList::new(&[0, 1, 0, 9]).decode().err(), Some(DecodeError::InvalidTag));
    // operation tag out of range
    assert_eq!(InstList::new(&[6, 13, 0, 0]).decode().err(), Some(DecodeError::InvalidTag));
    // condition kind out of range
    assert_eq!(
        InstList::new(&[2, 3, 0, 0, 0, 0, 0, 0, 0, 0, 0, 0]).decode().err(),
        Some(DecodeError::InvalidTag)
    );
}

#[test]
fn opcode_signatures() {
    assert_eq!(Op11::BoolNot.types(), ([Ty::Bool], vec![Ty::Bool]));
    assert_eq!(Op11::I128HiI64.types(), ([Ty::I128], vec![Ty::I64]));
    assert_eq!(Op11::I64IsNonZero.types(), ([Ty::I64], vec![Ty::Bool]));
    assert_eq!(Op11::I64ToI6.types(), ([Ty::I64], vec![Ty::I6]));
    assert_eq!(Op21::I64Add.types(), ([Ty::I64, Ty::I64], vec![Ty::I64]));
    assert_eq!(Op21::I64IsLtU.types(), ([Ty::I64, Ty::I64], vec![Ty::Bool]));
    assert_eq!(Op21::I64Shl.types(), ([Ty::I64, Ty::I6], vec![Ty::I64]));
    assert_eq!(Op21::I64MulFullS.types(), ([Ty::I64, Ty::I64], vec![Ty::I64, Ty::I64]));
    assert_eq!(Op21::I64MulFullU.types(), ([Ty::I64, Ty::I64], vec![Ty::I64, Ty::I64]));
    assert_eq!(Op21::BoolEq.types(), ([Ty::Bool, Ty::Bool], vec![Ty::Bool]));
    assert_eq!(Op31::I64Sel.types(), ([Ty::Bool, Ty::I64, Ty::I64], vec![Ty::I64]));
    assert_eq!(Op11::VARIANT_COUNT, 13);
    assert_eq!(Op21::VARIANT_COUNT, 33);
    assert_eq!(Op31::VARIANT_COUNT, 1);
    assert_eq!(Ty::VARIANT_COUNT, 6);
}

#[test]
fn every_opcode_tag_round_trips() {
    for t in 0..=255u8 {
        if let Ok(op) = Op11::decode(t) {
            assert_eq!(op.tag(), t);
        } else {
            assert!(t >= 13);
        }
        if let Ok(op) = Op21::decode(t) {
            assert_eq!(op.tag(), t);
        } else {
            assert!(t >= 33);
        }
        if let Ok(ty) = Ty::decode(t) {
            assert_eq!(ty.tag(), t);
        } else {
            assert!(t >= 6);
        }
    }
}

#[test]
fn six_bit_integers_drop_their_top_bits() {
    assert_eq!(u6::from(0xffu8).value(), 0x3f);
    assert_eq!(u6::from(64u8).value(), 0);
    assert_eq!(u8::from(u6::from(37u8)), 37);
    // the two top bits of a stored six-bit immediate are ignored
    let code = InstList::new(&[4, 0xc5]).decode().unwrap();
    assert_eq!(code, vec![Inst::ImmI6(u6::from(5))]);
    // any non-zero byte is a true immediate
    let code = InstList::new(&[3, 7, 3, 0]).decode().unwrap();
    assert_eq!(code, vec![Inst::ImmBool(true), Inst::ImmBool(false)]);
}

#[test]
fn cursor_reads_little_endian_and_reports_truncation() {
    let bytes: Vec<u8> = vec![1, 2, 3, 4, 5, 6, 7, 8, 9, 10, 11, 12, 13, 14, 15, 16, 17];
    let mut c = ByteCursor::new(&bytes);
    assert!(!c.is_empty());
    assert_eq!(c.pop_u8(), Ok(1));
    assert_eq!(c.pop_u16(), Ok(0x0302));
    assert_eq!(c.pop_u32(), Ok(0x0706_0504));
    assert_eq!(c.remaining(), 10);
    assert_eq!(c.pop_u64(), Ok(0x0f0e_0d0c_0b0a_0908));
    assert_eq!(c.pop_u64(), Err(DecodeError::Truncated));
    assert_eq!(c.pop_u32(), Err(DecodeError::Truncated));
    assert_eq!(c.remaining(), 2);
    assert_eq!(c.pop_array::<3>().err(), Some(DecodeError::Truncated));
    assert_eq!(c.pop_array::<1>(), Ok(&[16u8]));
    assert_eq!(c.pop_slice(2).err(), Some(DecodeError::Truncated));
    assert_eq!(c.pop_slice(1).unwrap(), &[17u8][..]);
    assert!(c.is_empty());
    assert_eq!(c.pop_u8(), Err(DecodeError::Truncated));
    assert_eq!(c.pop_u16(), Err(DecodeError::Truncated));
    assert_eq!(c.pop_slice(0).unwrap().len(), 0);
    assert_eq!(c.as_slice().len(), 0);
}

#[test]
fn buffer_appends_and_overwrites_little_endian() {
    let mut b = ByteBuf::new();
    assert_eq!(b.len(), 0);
    b.put_u8(0xaa);
    b.put_u16(0x1234);
    b.put_u32(0xdead_beef);
    b.put_u64(0x0102_0304_0506_0708);
    b.put_array(&[9u8, 9, 9]);
    b.put_slice(&[7u8]);
    assert_eq!(
        b.as_slice(),
        &[0xaa, 0x34, 0x12, 0xef, 0xbe, 0xad, 0xde, 8, 7, 6, 5, 4, 3, 2, 1, 9, 9, 9, 7][..]
    );
    b.set_u8(0, 1);
    b.set_u16(1, 0xbbcc);
    b.set_u32(3, 0x1122_3344);
    b.set_u64(7, 0xa1a2_a3a4_a5a6_a7a8);
    assert_eq!(b.len(), 19);
    b.truncate(16);
    assert_eq!(
        b.into_bytes(),
        vec![1, 0xcc, 0xbb, 0x44, 0x33, 0x22, 0x11, 0xa8, 0xa7, 0xa6, 0xa5, 0xa4, 0xa3, 0xa2, 0xa1, 9]
    );
}

#[test]
fn slices_read_and_write_at_offsets() {
    let mut a: Vec<u8> = vec![0, 1, 2, 3, 4, 5, 6, 7, 8, 9];
    assert_eq!(a.get_u8(3), 3);
    assert_eq!(a.get_u16(1), 0x0201);
    assert_eq!(a.get_u32(2), 0x0504_0302);
    assert_eq!(a.get_u64(1), 0x0807_0605_0403_0201);
    assert_eq!(a.get_array::<3>(4), &[4, 5, 6]);
    let (x, y) = a.split_array::<2>();
    assert_eq!(x, &[0, 1]);
    assert_eq!(y.len(), 8);
    a.as_mut_slice().set_u16(8, 0xffee);
    a.as_mut_slice().set_u32(0, 0x0a0b_0c0d);
    *a.as_mut_slice().get_array_mut::<2>(4) = [0x55, 0x66];
    assert_eq!(a, vec![0x0d, 0x0c, 0x0b, 0x0a, 0x55, 0x66, 6, 7, 0xee, 0xff]);
    let mut s: &[u8] = &a;
    assert_eq!(s.pop_u8(), 0x0d);
    assert_eq!(s.pop_u16(), 0x0b0c);
    assert_eq!(s.pop_u32(), 0x0666_550a);
    assert_eq!(s.pop_array::<1>(), &[7]);
    assert_eq!(s.pop_slice(2), &[0xee, 0xff][..]);
    assert!(s.is_empty());
    let mut t: &[u8] = &a;
    assert_eq!(bytecode_backend::bc::pop_u8(&mut t), 0x0d);
    assert_eq!(bytecode_backend::bc::pop_32(&mut t), 0x550a_0b0c);
    assert_eq!(t.len(), 5);
}

#[test]
fn record_fields_are_found_through_the_offset_table() {
    // three fields: "ab", "", "cde"
    let rec: Vec<u8> = vec![2, 0, 0, 0, 2, 0, 0, 0, b'a', b'b', b'c', b'd', b'e'];
    assert_eq!(field::<3, 0>(&rec).unwrap(), b"ab");
    assert_eq!(field::<3, 1>(&rec).unwrap(), b"");
    assert_eq!(field::<3, 2>(&rec).unwrap(), b"cde");
    // a record of one field has no table
    assert_eq!(field::<1, 0>(&rec).unwrap(), &rec[..]);
    // shorter than its table
    assert_eq!(field::<3, 0>(&rec[..7]).err(), Some(DecodeError::Truncated));
    // end offset past the record
    let bad: Vec<u8> = vec![9, 0, 0, 0, b'a'];
    assert_eq!(field::<2, 0>(&bad).err(), Some(DecodeError::InvalidLength));
    assert_eq!(field::<2, 1>(&bad).err(), Some(DecodeError::InvalidLength));
    // offsets out of order
    let bad: Vec<u8> = vec![2, 0, 0, 0, 1, 0, 0, 0, b'a', b'b'];
    assert_eq!(field::<3, 1>(&bad).err(), Some(DecodeError::InvalidLength));
}

#[test]
fn runs_of_items_are_walked_in_order() {
    let run: Vec<u8> = vec![2, 0, 0, 0, 7, 8, 0, 0, 0, 0, 1, 0, 0, 0, 9];
    let mut it = iter_variable_sized(&run);
    assert_eq!(it.next().unwrap().unwrap(), &[7u8, 8][..]);
    assert_eq!(it.next().unwrap().unwrap().len(), 0);
    assert_eq!(it.next().unwrap().unwrap(), &[9u8][..]);
    assert!(it.next().is_none());
    // a length that runs past the end
    let run: Vec<u8> = vec![1, 0, 0, 0, 7, 5, 0, 0, 0, 1];
    let mut it = iter_variable_sized(&run);
    assert_eq!(it.next().unwrap().unwrap(), &[7u8][..]);
    assert_eq!(it.next().unwrap().err(), Some(DecodeError::Truncated));
    assert!(it.next().is_none());
    // a length field cut short
    let mut it = iter_variable_sized(&run[..7]);
    assert_eq!(it.next().unwrap().unwrap(), &[7u8][..]);
    assert_eq!(it.next().unwrap().err(), Some(DecodeError::Truncated));
    // items of two bytes
    let mut it = iter_constant_sized::<2>(&run[..5]);
    assert_eq!(it.next().unwrap().unwrap(), &[1u8, 0]);
    assert_eq!(it.next().unwrap().unwrap(), &[0u8, 0]);
    assert_eq!(it.next().unwrap().err(), Some(DecodeError::InvalidLength));
    assert!(it.next().is_none());
}

#[test]
fn defects_inside_a_function_record() {
    let good = Program { functions: vec![foo()] }.encode().unwrap();
    // name that is not UTF-8
    let mut bytes = good.clone();
    bytes[12] = 0xff;
    assert_eq!(Prog::new(&bytes).decode().err(), Some(DecodeError::InvalidName));
    let fun = Fun::new(&bytes[4..]);
    assert_eq!(fun.name().err(), Some(DecodeError::InvalidName));
    assert_eq!(fun.input_ty_list().unwrap().to_vec(), vec![Ty::I64]);
    // input type out of range
    let mut bytes = good.clone();
    bytes[19] = 6;
    assert_eq!(Prog::new(&bytes).decode().err(), Some(DecodeError::InvalidTag));
    // end of the name past the end of the signature
    let mut bytes = good.clone();
    bytes[4] = 10;
    assert_eq!(Prog::new(&bytes).decode().err(), Some(DecodeError::InvalidLength));
    // function record cut short
    assert_eq!(Prog::new(&good[..20]).decode().err(), Some(DecodeError::Truncated));
    // stream cut inside the last instruction
    let mut bytes = good.clone();
    bytes[0] = 33;
    bytes.truncate(37);
    assert_eq!(Prog::new(&bytes).decode().err(), Some(DecodeError::Truncated));
    // the defect of one record does not hide the next record
    let mut two = good.clone();
    two[12] = 0xff;
    two.extend_from_slice(&good);
    let each = Prog::new(&two).decode_each().unwrap();
    assert_eq!(each.len(), 2);
    assert_eq!(each[0], Err(DecodeError::InvalidName));
    assert_eq!(each[1].as_ref().unwrap(), &foo());
}

#[test]
fn lists_that_are_too_long_cannot_be_written() {
    let long = Inst::Ret(vec![VarId(0); 0x1_0000]);
    assert!(!long.encodable());
    let mut buf = ByteBuf::new();
    buf.put_u8(1);
    assert_eq!(long.encode(&mut buf), Err(EncodeError::TooLong));
    assert_eq!(buf.len(), 1);
    let mut f = foo();
    f.code.push(long);
    assert_eq!(f.encode(&mut buf), Err(EncodeError::TooLong));
    assert_eq!(buf.as_slice(), &[1u8][..]);
    assert_eq!(Program { functions: vec![foo(), f] }.encode(), Err(EncodeError::TooLong));
    let fits = Inst::Ret(vec![VarId(7); 0xffff]);
    assert!(fits.encodable());
    assert_eq!(fits.encode(&mut buf), Ok(()));
    assert_eq!(buf.len(), 1 + 3 + 2 * 0xffff);
    assert_eq!(&buf.as_slice()[1..6], &[9u8, 0xff, 0xff, 7, 0][..]);
}

#[test]
fn views_give_the_parts_of_each_instruction() {
    let f = every_kind();
    let mut buf = ByteBuf::new();
    for inst in &f.code {
        inst.encode(&mut buf).unwrap();
    }
    let bytes = buf.into_bytes();
    let mut it = InstList::new(&bytes).iter();
    let mut seen = Vec::new();
    while let Some(inst) = it.next() {
        let inst = inst.unwrap();
        seen.push(inst.tag());
        match inst {
            InstRef::ImmI64(x) => assert_eq!(x.imm(), 0x0102_0304_0506_0708),
            InstRef::ImmI6(x) => assert_eq!(x.imm().value(), 63),
            InstRef::Op11(x) => {
                assert_eq!(x.op(), Op11::I64ToI6);
                assert_eq!(x.args()[0].0, 0);
            }
            InstRef::Op21(x) => {
                assert_eq!(x.op(), Op21::I64MulFullS);
                assert_eq!((x.args()[0].0, x.args()[1].0), (0, 6));
            }
            InstRef::Op31(x) => {
                assert_eq!(x.op(), Op31::I64Sel);
                assert_eq!((x.args()[0].0, x.args()[1].0, x.args()[2].0), (1, 0, 6));
            }
            InstRef::Goto(x) => {
                assert_eq!(x.target().0, 4);
                assert_eq!(x.args().to_vec(), vec![VarId(4)]);
                let mut a = x.args().iter();
                assert_eq!(a.next().unwrap().0, 4);
                assert!(a.next().is_none());
            }
            InstRef::If(x) => {
                if let Cond::Op21(op, a, b) = x.cond() {
                    assert_eq!(op, Op21::I64IsLtS);
                    assert_eq!((a, b), (VarId(0), VarId(6)));
                    assert_eq!(x.args().to_vec(), vec![VarId(0), VarId(6)]);
                    assert_eq!((x.targets()[0].0, x.targets()[1].0), (3, 4));
                    assert_eq!(x.then_args().to_vec(), vec![VarId(0), VarId(6)]);
                    assert_eq!(x.else_args().to_vec(), vec![VarId(3)]);
                }
            }
            _ => {}
        }
    }
    assert_eq!(seen.len(), f.code.len());
    assert_eq!(seen[0], InstTag::ImmBool);
    assert_eq!(seen[7], InstTag::If);
    assert_eq!(seen[8], InstTag::Block);
    assert_eq!(seen[15], InstTag::Return);
}
