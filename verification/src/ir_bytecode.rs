//! Views of an encoded program. Each view borrows from the byte buffer and
//! reads from it on demand; nothing is copied and nothing is allocated
//! unless a caller asks for an owned value.

use vstd::prelude::*;
use vstd::slice::slice_subrange;
use crate::bc::{field, iter_variable_sized, spec_field, IterVariableSized};
use crate::bytecode::{code_view, Cond, Function, FunctionView, InstView, Program, Signature, VarId};
use crate::error::DecodeError;
use crate::ir_op::{Op11, Op21, Op31};
use crate::ir_ty::Ty;
use crate::slice_ext::{le_u16, le_u64, utf8_text, ByteSliceExt, SliceExt};
use crate::u6::u6;
use crate::wire::{
    decode_arm, decode_block, decode_code, decode_cond, decode_function, decode_ids, decode_if,
    decode_inst, decode_items, decode_name, decode_op11, decode_op21, decode_op31,
    decode_payload, decode_program, decode_return, decode_types,
    lemma_code_shorter_than_bytes, COND_OP11, COND_OP21, COND_VAR,
};

verus! {

/// The index of a value, as read from the stream.
#[derive(Clone, Copy, Debug, PartialEq, Eq, Structural)]
pub struct Id(pub u16);

/// The index of a block, as read from the stream.
#[derive(Clone, Copy, Debug, PartialEq, Eq, Structural)]
pub struct BlockId(pub u16);

/// The kind of an instruction: the first byte of its record.
#[derive(Clone, Copy, Debug, PartialEq, Eq, Structural)]
pub enum InstTag {
    Block,
    Goto,
    If,
    ImmBool,
    ImmI6,
    ImmI64,
    Op11,
    Op21,
    Op31,
    Return,
}

impl InstTag {
    /// The number of instruction kinds.
    pub const VARIANT_COUNT: usize = 10;

    /// The byte that stands for this kind: its position in the list.
    pub open spec fn spec_tag(self) -> u8 {
        match self {
            InstTag::Block => 0,
            InstTag::Goto => 1,
            InstTag::If => 2,
            InstTag::ImmBool => 3,
            InstTag::ImmI6 => 4,
            InstTag::ImmI64 => 5,
            InstTag::Op11 => 6,
            InstTag::Op21 => 7,
            InstTag::Op31 => 8,
            InstTag::Return => 9,
        }
    }

    /// The kind that a byte stands for, if any.
    pub open spec fn spec_decode(t: u8) -> Option<InstTag> {
        if t == 0 {
            Some(InstTag::Block)
        } else if t == 1 {
            Some(InstTag::Goto)
        } else if t == 2 {
            Some(InstTag::If)
        } else if t == 3 {
            Some(InstTag::ImmBool)
        } else if t == 4 {
            Some(InstTag::ImmI6)
        } else if t == 5 {
            Some(InstTag::ImmI64)
        } else if t == 6 {
            Some(InstTag::Op11)
        } else if t == 7 {
            Some(InstTag::Op21)
        } else if t == 8 {
            Some(InstTag::Op31)
        } else if t == 9 {
            Some(InstTag::Return)
        } else {
            None
        }
    }

    pub fn tag(self) -> (t: u8)
        ensures
            t == self.spec_tag(),
            InstTag::spec_decode(t) == Some(self),
    {
        match self {
            InstTag::Block => 0,
            InstTag::Goto => 1,
            InstTag::If => 2,
            InstTag::ImmBool => 3,
            InstTag::ImmI6 => 4,
            InstTag::ImmI64 => 5,
            InstTag::Op11 => 6,
            InstTag::Op21 => 7,
            InstTag::Op31 => 8,
            InstTag::Return => 9,
        }
    }

    /// Reads a kind from its byte: a range test, then a lookup.
    pub fn decode(t: u8) -> (r: Result<InstTag, DecodeError>)
        ensures
            match InstTag::spec_decode(t) {
                Some(k) => r == Ok::<InstTag, DecodeError>(k),
                None => r == Err::<InstTag, DecodeError>(DecodeError::InvalidTag),
            },
            r is Ok <==> (t as int) < InstTag::VARIANT_COUNT,
    {
        if t as usize >= InstTag::VARIANT_COUNT {
            return Err(DecodeError::InvalidTag);
        }
        match t {
            0 => Ok(InstTag::Block),
            1 => Ok(InstTag::Goto),
            2 => Ok(InstTag::If),
            3 => Ok(InstTag::ImmBool),
            4 => Ok(InstTag::ImmI6),
            5 => Ok(InstTag::ImmI64),
            6 => Ok(InstTag::Op11),
            7 => Ok(InstTag::Op21),
            8 => Ok(InstTag::Op31),
            _ => Ok(InstTag::Return),
        }
    }
}

/// A list of types, one byte each. Every byte is known to stand for a type.
#[derive(Clone, Copy)]
pub struct TyList<'a>(&'a [u8]);

impl<'a> View for TyList<'a> {
    type V = Seq<Ty>;

    /// The types of the list.
    closed spec fn view(&self) -> Seq<Ty> {
        Ty::decode_all(self.0@)
    }
}

impl<'a> TyList<'a> {
    #[verifier::type_invariant]
    spec fn tags_valid(self) -> bool {
        Ty::all_valid(self.0@)
    }

    /// The bytes that the list was read from.
    pub closed spec fn bytes(self) -> Seq<u8> {
        self.0@
    }

    /// Reads a list of types, checking each byte.
    pub fn new(b: &'a [u8]) -> (r: Result<TyList<'a>, DecodeError>)
        ensures
            match decode_types(b@) {
                Ok(tys) => r is Ok && r.unwrap()@ == tys && r.unwrap().bytes() == b@,
                Err(e) => r == Err::<TyList<'a>, DecodeError>(e),
            },
    {
        let n = b.len();
        let mut i: usize = 0;
        while i < n
            invariant
                n == b@.len(),
                i <= n,
                forall|j: int| 0 <= j < i ==> (#[trigger] Ty::spec_decode(b@[j])) is Some,
            decreases n - i,
        {
            match Ty::decode(b[i]) {
                Ok(_) => {},
                Err(e) => {
                    return Err(e);
                },
            }
            i += 1;
        }
        Ok(TyList(b))
    }

    pub fn len(self) -> (r: usize)
        ensures
            r == self@.len(),
    {
        self.0.len()
    }

    /// The type at position `i`.
    pub fn get(self, i: usize) -> (r: Ty)
        requires
            i < self@.len(),
        ensures
            r == self@[i as int],
    {
        proof {
            use_type_invariant(&self);
        }
        Ty::decode(self.0[i]).unwrap()
    }

    /// Walks the list from the front.
    pub fn iter(self) -> (r: TyIter<'a>)
        ensures
            r@ == self@,
    {
        proof {
            use_type_invariant(&self);
        }
        let r = TyIter { list: self, pos: 0 };
        assert(r@ =~= self@);
        r
    }

    /// The types as an owned vector.
    pub fn to_vec(self) -> (r: Vec<Ty>)
        ensures
            r@ == self@,
    {
        let n = self.len();
        let mut r: Vec<Ty> = Vec::new();
        let mut i: usize = 0;
        while i < n
            invariant
                n == self@.len(),
                i <= n,
                r@ == self@.subrange(0, i as int),
            decreases n - i,
        {
            r.push(self.get(i));
            assert(r@ =~= self@.subrange(0, i + 1));
            i += 1;
        }
        assert(r@ =~= self@);
        r
    }
}

/// A position in a list of types.
#[derive(Clone, Copy)]
pub struct TyIter<'a> {
    list: TyList<'a>,
    pos: usize,
}

impl<'a> View for TyIter<'a> {
    type V = Seq<Ty>;

    /// The types not yet walked.
    closed spec fn view(&self) -> Seq<Ty> {
        self.list@.subrange(self.pos as int, self.list@.len() as int)
    }
}

impl<'a> TyIter<'a> {
    #[verifier::type_invariant]
    spec fn in_bounds(self) -> bool {
        self.pos <= self.list@.len()
    }

    /// The next type, if one is left.
    pub fn next(&mut self) -> (r: Option<Ty>)
        ensures
            old(self)@.len() == 0 ==> r is None && final(self)@ == old(self)@,
            old(self)@.len() > 0 ==> r == Some(old(self)@[0]) && final(self)@ == old(self)@.subrange(
                1,
                old(self)@.len() as int,
            ),
    {
        proof {
            use_type_invariant(&*self);
        }
        if self.pos < self.list.len() {
            let ty = self.list.get(self.pos);
            self.pos += 1;
            assert(self@ =~= old(self)@.subrange(1, old(self)@.len() as int));
            Some(ty)
        } else {
            None
        }
    }
}

/// A list of value indices, two bytes each.
#[derive(Clone, Copy)]
pub struct IdList<'a>(&'a [u8]);

impl<'a> View for IdList<'a> {
    type V = Seq<VarId>;

    /// The value indices of the list.
    closed spec fn view(&self) -> Seq<VarId> {
        decode_ids(self.0@)
    }
}

impl<'a> IdList<'a> {
    #[verifier::type_invariant]
    spec fn whole_items(self) -> bool {
        self.0@.len() % 2 == 0
    }

    /// The bytes that the list was read from.
    pub closed spec fn bytes(self) -> Seq<u8> {
        self.0@
    }

    /// Reads a list of value indices. The length of `b` is invalid where it
    /// is odd.
    pub fn new(b: &'a [u8]) -> (r: Result<IdList<'a>, DecodeError>)
        ensures
            b@.len() % 2 == 0 ==> r is Ok && r.unwrap()@ == decode_ids(b@) && r.unwrap().bytes()
                == b@,
            b@.len() % 2 != 0 ==> r == Err::<IdList<'a>, DecodeError>(DecodeError::InvalidLength),
    {
        if b.len() % 2 == 0 {
            Ok(IdList(b))
        } else {
            Err(DecodeError::InvalidLength)
        }
    }

    pub fn len(self) -> (r: usize)
        ensures
            r == self@.len(),
    {
        self.0.len() / 2
    }

    /// The value index at position `i`.
    pub fn get(self, i: usize) -> (r: Id)
        requires
            i < self@.len(),
        ensures
            r.0 == self@[i as int].0,
    {
        proof {
            use_type_invariant(&self);
        }
        let _ = self.0.len();
        Id(self.0.get_u16(2 * i))
    }

    /// Walks the list from the front.
    pub fn iter(self) -> (r: IdIter<'a>)
        ensures
            r@ == self@,
    {
        let r = IdIter { list: self, pos: 0 };
        assert(r@ =~= self@);
        r
    }

    /// The value indices as an owned vector.
    pub fn to_vec(self) -> (r: Vec<VarId>)
        ensures
            r@ == self@,
    {
        let n = self.len();
        let mut r: Vec<VarId> = Vec::new();
        let mut i: usize = 0;
        while i < n
            invariant
                n == self@.len(),
                i <= n,
                r@ == self@.subrange(0, i as int),
            decreases n - i,
        {
            r.push(VarId(self.get(i).0));
            assert(r@ =~= self@.subrange(0, i + 1));
            i += 1;
        }
        assert(r@ =~= self@);
        r
    }
}

/// A position in a list of value indices.
#[derive(Clone, Copy)]
pub struct IdIter<'a> {
    list: IdList<'a>,
    pos: usize,
}

impl<'a> View for IdIter<'a> {
    type V = Seq<VarId>;

    /// The value indices not yet walked.
    closed spec fn view(&self) -> Seq<VarId> {
        self.list@.subrange(self.pos as int, self.list@.len() as int)
    }
}

impl<'a> IdIter<'a> {
    #[verifier::type_invariant]
    spec fn in_bounds(self) -> bool {
        self.pos <= self.list@.len()
    }

    /// The next value index, if one is left.
    pub fn next(&mut self) -> (r: Option<Id>)
        ensures
            old(self)@.len() == 0 ==> r is None && final(self)@ == old(self)@,
            old(self)@.len() > 0 ==> r is Some && r.unwrap().0 == old(self)@[0].0 && final(self)@
                == old(self)@.subrange(1, old(self)@.len() as int),
    {
        proof {
            use_type_invariant(&*self);
        }
        if self.pos < self.list.len() {
            let id = self.list.get(self.pos);
            self.pos += 1;
            assert(self@ =~= old(self)@.subrange(1, old(self)@.len() as int));
            Some(id)
        } else {
            None
        }
    }
}

/// What a jump arm holds behind its argument count: the target, then the
/// arguments.
pub open spec fn arm_target(a: Seq<u8>) -> crate::bytecode::BlockId {
    crate::bytecode::BlockId(le_u16(a.subrange(0, 2)))
}

/// The arguments of a jump arm.
pub open spec fn arm_args(a: Seq<u8>) -> Seq<VarId> {
    decode_ids(a.subrange(2, a.len() as int))
}

/// Whether `a` is shaped like a jump arm: a target and whole arguments.
pub open spec fn arm_shaped(a: Seq<u8>) -> bool {
    a.len() >= 2 && a.len() % 2 == 0
}

/// Reads one jump arm from the front of `p`: the bytes behind its argument
/// count, and the number of bytes read.
fn read_arm<'a>(p: &'a [u8]) -> (r: Result<(&'a [u8], usize), DecodeError>)
    ensures
        match decode_arm(p@) {
            Ok((t, args, n)) => r is Ok && r.unwrap().1 == n && n <= p@.len() && arm_shaped(
                r.unwrap().0@,
            ) && r.unwrap().0@ == p@.subrange(2, n) && arm_target(r.unwrap().0@) == t && arm_args(
                r.unwrap().0@,
            ) == args,
            Err(e) => r == Err::<(&'a [u8], usize), DecodeError>(e),
        },
{
    let len = p.len();
    if len < 2 {
        return Err(DecodeError::Truncated);
    }
    let n = p.get_u16(0) as usize;
    if len - 2 < 2 + 2 * n {
        return Err(DecodeError::Truncated);
    }
    let a = slice_subrange(p, 2, 4 + 2 * n);
    assert(a@.subrange(0, 2) =~= p@.subrange(2, 4));
    assert(a@.subrange(2, a@.len() as int) =~= p@.subrange(4, 4 + 2 * n));
    Ok((a, 4 + 2 * n))
}

/// The parameters of a block.
#[derive(Clone, Copy)]
pub struct InstBlock<'a>(&'a [u8]);

impl<'a> View for InstBlock<'a> {
    type V = Seq<Ty>;

    /// The types of the block's parameters.
    closed spec fn view(&self) -> Seq<Ty> {
        Ty::decode_all(self.0@)
    }
}

impl<'a> InstBlock<'a> {
    #[verifier::type_invariant]
    spec fn tags_valid(self) -> bool {
        Ty::all_valid(self.0@)
    }

    fn read(p: &'a [u8]) -> (r: Result<(InstBlock<'a>, usize), DecodeError>)
        ensures
            match decode_block(p@) {
                Ok((iv, n)) => r is Ok && InstView::Block(r.unwrap().0@) == iv && r.unwrap().1 == n
                    && n <= p@.len(),
                Err(e) => r == Err::<(InstBlock<'a>, usize), DecodeError>(e),
            },
    {
        let len = p.len();
        if len < 2 {
            return Err(DecodeError::Truncated);
        }
        let n = p.get_u16(0) as usize;
        if len - 2 < n {
            return Err(DecodeError::Truncated);
        }
        let b = slice_subrange(p, 2, 2 + n);
        match TyList::new(b) {
            Ok(_) => Ok((InstBlock(b), 2 + n)),
            Err(e) => Err(e),
        }
    }

    pub fn params(self) -> (r: TyList<'a>)
        ensures
            r@ == self@,
    {
        proof {
            use_type_invariant(&self);
        }
        TyList(self.0)
    }
}

/// An unconditional jump.
#[derive(Clone, Copy)]
pub struct InstGoto<'a>(&'a [u8]);

impl<'a> View for InstGoto<'a> {
    type V = (crate::bytecode::BlockId, Seq<VarId>);

    /// The target and the arguments.
    closed spec fn view(&self) -> (crate::bytecode::BlockId, Seq<VarId>) {
        (arm_target(self.0@), arm_args(self.0@))
    }
}

impl<'a> InstGoto<'a> {
    #[verifier::type_invariant]
    spec fn shaped(self) -> bool {
        arm_shaped(self.0@)
    }

    pub fn target(self) -> (r: BlockId)
        ensures
            r.0 == self@.0.0,
    {
        proof {
            use_type_invariant(&self);
        }
        BlockId(self.0.get_u16(0))
    }

    pub fn args(self) -> (r: IdList<'a>)
        ensures
            r@ == self@.1,
    {
        proof {
            use_type_invariant(&self);
        }
        IdList(slice_subrange(self.0, 2, self.0.len()))
    }
}

/// A conditional jump.
#[derive(Clone, Copy)]
pub struct InstIf<'a> {
    cond: &'a [u8],
    then_arm: &'a [u8],
    else_arm: &'a [u8],
}

/// What a conditional jump says: the condition, then target and arguments of
/// each arm.
pub struct IfView {
    pub cond: Cond,
    pub then_target: crate::bytecode::BlockId,
    pub then_args: Seq<VarId>,
    pub else_target: crate::bytecode::BlockId,
    pub else_args: Seq<VarId>,
}

impl<'a> View for InstIf<'a> {
    type V = IfView;

    closed spec fn view(&self) -> IfView {
        IfView {
            cond: decode_cond(self.cond@).unwrap().0,
            then_target: arm_target(self.then_arm@),
            then_args: arm_args(self.then_arm@),
            else_target: arm_target(self.else_arm@),
            else_args: arm_args(self.else_arm@),
        }
    }
}

impl<'a> InstIf<'a> {
    #[verifier::type_invariant]
    spec fn shaped(self) -> bool {
        &&& decode_cond(self.cond@) is Ok
        &&& decode_cond(self.cond@).unwrap().1 == self.cond@.len()
        &&& arm_shaped(self.then_arm@)
        &&& arm_shaped(self.else_arm@)
    }

    fn read(p: &'a [u8]) -> (r: Result<(InstIf<'a>, usize), DecodeError>)
        ensures
            match decode_if(p@) {
                Ok((iv, n)) => r is Ok && InstView::If(
                    r.unwrap().0@.cond,
                    r.unwrap().0@.then_target,
                    r.unwrap().0@.then_args,
                    r.unwrap().0@.else_target,
                    r.unwrap().0@.else_args,
                ) == iv && r.unwrap().1 == n && n <= p@.len(),
                Err(e) => r == Err::<(InstIf<'a>, usize), DecodeError>(e),
            },
    {
        let len = p.len();
        if len < 1 {
            return Err(DecodeError::Truncated);
        }
        let kind = p[0];
        let n0: usize = if kind == COND_VAR {
            if len < 3 {
                return Err(DecodeError::Truncated);
            }
            3
        } else if kind == COND_OP11 {
            if len < 4 {
                return Err(DecodeError::Truncated);
            }
            match Op11::decode(p[1]) {
                Ok(_) => {},
                Err(e) => {
                    return Err(e);
                },
            }
            4
        } else if kind == COND_OP21 {
            if len < 6 {
                return Err(DecodeError::Truncated);
            }
            match Op21::decode(p[1]) {
                Ok(_) => {},
                Err(e) => {
                    return Err(e);
                },
            }
            6
        } else {
            return Err(DecodeError::InvalidTag);
        };
        let cond = slice_subrange(p, 0, n0);
        proof {
            assert(cond@[0] == p@[0]);
            assert(cond@.subrange(1, 3) =~= p@.subrange(1, 3));
            if n0 >= 4 {
                assert(cond@[1] == p@[1]);
                assert(cond@.subrange(2, 4) =~= p@.subrange(2, 4));
            }
            if n0 >= 6 {
                assert(cond@.subrange(4, 6) =~= p@.subrange(4, 6));
            }
            assert(decode_cond(cond@) == decode_cond(p@));
        }
        let p1 = slice_subrange(p, n0, len);
        let (then_arm, n1) = match read_arm(p1) {
            Ok(x) => x,
            Err(e) => {
                return Err(e);
            },
        };
        let p2 = slice_subrange(p, n0 + n1, len);
        let (else_arm, n2) = match read_arm(p2) {
            Ok(x) => x,
            Err(e) => {
                return Err(e);
            },
        };
        Ok((InstIf { cond, then_arm, else_arm }, n0 + n1 + n2))
    }

    /// What the jump tests.
    pub fn cond(self) -> (r: Cond)
        ensures
            r == self@.cond,
    {
        proof {
            use_type_invariant(&self);
        }
        let c = self.cond;
        let kind = c[0];
        if kind == COND_VAR {
            Cond::Var(VarId(c.get_u16(1)))
        } else if kind == COND_OP11 {
            Cond::Op11(Op11::decode(c[1]).unwrap(), VarId(c.get_u16(2)))
        } else {
            Cond::Op21(Op21::decode(c[1]).unwrap(), VarId(c.get_u16(2)), VarId(c.get_u16(4)))
        }
    }

    /// The operands of the condition.
    pub fn args(self) -> (r: IdList<'a>)
        ensures
            r@ == cond_operands(self@.cond),
    {
        proof {
            use_type_invariant(&self);
        }
        let c = self.cond;
        let kind = c[0];
        let r = if kind == COND_VAR {
            let r = IdList(slice_subrange(c, 1, 3));
            assert(r.0@.subrange(0, 2) =~= c@.subrange(1, 3));
            r
        } else if kind == COND_OP11 {
            let r = IdList(slice_subrange(c, 2, 4));
            assert(r.0@.subrange(0, 2) =~= c@.subrange(2, 4));
            r
        } else {
            let r = IdList(slice_subrange(c, 2, 6));
            assert(r.0@.subrange(0, 2) =~= c@.subrange(2, 4));
            assert(r.0@.subrange(2, 4) =~= c@.subrange(4, 6));
            r
        };
        assert(r@ =~= cond_operands(self@.cond));
        r
    }

    /// The target where the condition holds, then the target where it does
    /// not.
    pub fn targets(self) -> (r: [BlockId; 2])
        ensures
            r@.len() == 2,
            r@[0].0 == self@.then_target.0,
            r@[1].0 == self@.else_target.0,
    {
        proof {
            use_type_invariant(&self);
        }
        [BlockId(self.then_arm.get_u16(0)), BlockId(self.else_arm.get_u16(0))]
    }

    /// The arguments passed where the condition holds.
    pub fn then_args(self) -> (r: IdList<'a>)
        ensures
            r@ == self@.then_args,
    {
        proof {
            use_type_invariant(&self);
        }
        IdList(slice_subrange(self.then_arm, 2, self.then_arm.len()))
    }

    /// The arguments passed where the condition does not hold.
    pub fn else_args(self) -> (r: IdList<'a>)
        ensures
            r@ == self@.else_args,
    {
        proof {
            use_type_invariant(&self);
        }
        IdList(slice_subrange(self.else_arm, 2, self.else_arm.len()))
    }
}

/// The operands of a branch condition, in order.
pub open spec fn cond_operands(c: Cond) -> Seq<VarId> {
    match c {
        Cond::Var(x) => seq![x],
        Cond::Op11(_, x) => seq![x],
        Cond::Op21(_, x, y) => seq![x, y],
    }
}

/// A truth value given in the stream.
#[derive(Clone, Copy)]
pub struct InstImmBool<'a>(&'a [u8; 1]);

impl<'a> View for InstImmBool<'a> {
    type V = bool;

    closed spec fn view(&self) -> bool {
        self.0@[0] != 0
    }
}

impl<'a> InstImmBool<'a> {
    pub fn imm(self) -> (r: bool)
        ensures
            r == self@,
    {
        self.0[0] != 0
    }
}

/// A six-bit integer given in the stream.
#[derive(Clone, Copy)]
pub struct InstImmI6<'a>(&'a [u8; 1]);

impl<'a> View for InstImmI6<'a> {
    type V = u8;

    closed spec fn view(&self) -> u8 {
        self.0@[0] % 64
    }
}

impl<'a> InstImmI6<'a> {
    pub fn imm(self) -> (r: u6)
        ensures
            r@ == self@,
    {
        u6::from(self.0[0])
    }
}

/// A 64-bit integer given in the stream.
#[derive(Clone, Copy)]
pub struct InstImmI64<'a>(&'a [u8; 8]);

impl<'a> View for InstImmI64<'a> {
    type V = u64;

    closed spec fn view(&self) -> u64 {
        le_u64(self.0@)
    }
}

impl<'a> InstImmI64<'a> {
    pub fn imm(self) -> (r: u64)
        ensures
            r == self@,
    {
        assert(self.0@.subrange(0, 8) =~= self.0@);
        self.0.as_slice().get_u64(0)
    }
}

/// An operation of one operand.
#[derive(Clone, Copy)]
pub struct InstOp11<'a>(&'a [u8; 3]);

impl<'a> View for InstOp11<'a> {
    type V = (Op11, VarId);

    /// The operation and its operand.
    closed spec fn view(&self) -> (Op11, VarId) {
        (Op11::spec_decode(self.0@[0]).unwrap(), VarId(le_u16(self.0@.subrange(1, 3))))
    }
}

impl<'a> InstOp11<'a> {
    #[verifier::type_invariant]
    spec fn tag_valid(self) -> bool {
        Op11::spec_decode(self.0@[0]) is Some
    }

    fn read(p: &'a [u8]) -> (r: Result<(InstOp11<'a>, usize), DecodeError>)
        ensures
            match decode_op11(p@) {
                Ok((iv, n)) => r is Ok && InstView::Op11(r.unwrap().0@.0, r.unwrap().0@.1) == iv
                    && r.unwrap().1 == n && n <= p@.len(),
                Err(e) => r == Err::<(InstOp11<'a>, usize), DecodeError>(e),
            },
    {
        if p.len() < 3 {
            return Err(DecodeError::Truncated);
        }
        let a = p.get_array::<3>(0);
        assert(a@[0] == p@[0]);
        assert(a@.subrange(1, 3) =~= p@.subrange(1, 3));
        match Op11::decode(a[0]) {
            Ok(_) => Ok((InstOp11(a), 3)),
            Err(e) => Err(e),
        }
    }

    pub fn op(self) -> (r: Op11)
        ensures
            r == self@.0,
    {
        proof {
            use_type_invariant(&self);
        }
        Op11::decode(self.0[0]).unwrap()
    }

    pub fn args(self) -> (r: [Id; 1])
        ensures
            r@.len() == 1,
            r@[0].0 == self@.1.0,
    {
        [Id(self.0.as_slice().get_u16(1))]
    }
}

/// An operation of two operands.
#[derive(Clone, Copy)]
pub struct InstOp21<'a>(&'a [u8; 5]);

impl<'a> View for InstOp21<'a> {
    type V = (Op21, VarId, VarId);

    /// The operation and its operands.
    closed spec fn view(&self) -> (Op21, VarId, VarId) {
        (
            Op21::spec_decode(self.0@[0]).unwrap(),
            VarId(le_u16(self.0@.subrange(1, 3))),
            VarId(le_u16(self.0@.subrange(3, 5))),
        )
    }
}

impl<'a> InstOp21<'a> {
    #[verifier::type_invariant]
    spec fn tag_valid(self) -> bool {
        Op21::spec_decode(self.0@[0]) is Some
    }

    fn read(p: &'a [u8]) -> (r: Result<(InstOp21<'a>, usize), DecodeError>)
        ensures
            match decode_op21(p@) {
                Ok((iv, n)) => r is Ok && InstView::Op21(
                    r.unwrap().0@.0,
                    r.unwrap().0@.1,
                    r.unwrap().0@.2,
                ) == iv && r.unwrap().1 == n && n <= p@.len(),
                Err(e) => r == Err::<(InstOp21<'a>, usize), DecodeError>(e),
            },
    {
        if p.len() < 5 {
            return Err(DecodeError::Truncated);
        }
        let a = p.get_array::<5>(0);
        assert(a@[0] == p@[0]);
        assert(a@.subrange(1, 3) =~= p@.subrange(1, 3));
        assert(a@.subrange(3, 5) =~= p@.subrange(3, 5));
        match Op21::decode(a[0]) {
            Ok(_) => Ok((InstOp21(a), 5)),
            Err(e) => Err(e),
        }
    }

    pub fn op(self) -> (r: Op21)
        ensures
            r == self@.0,
    {
        proof {
            use_type_invariant(&self);
        }
        Op21::decode(self.0[0]).unwrap()
    }

    pub fn args(self) -> (r: [Id; 2])
        ensures
            r@.len() == 2,
            r@[0].0 == self@.1.0,
            r@[1].0 == self@.2.0,
    {
        let s = self.0.as_slice();
        [Id(s.get_u16(1)), Id(s.get_u16(3))]
    }
}

/// An operation of three operands.
#[derive(Clone, Copy)]
pub struct InstOp31<'a>(&'a [u8; 7]);

impl<'a> View for InstOp31<'a> {
    type V = (Op31, VarId, VarId, VarId);

    /// The operation and its operands.
    closed spec fn view(&self) -> (Op31, VarId, VarId, VarId) {
        (
            Op31::spec_decode(self.0@[0]).unwrap(),
            VarId(le_u16(self.0@.subrange(1, 3))),
            VarId(le_u16(self.0@.subrange(3, 5))),
            VarId(le_u16(self.0@.subrange(5, 7))),
        )
    }
}

impl<'a> InstOp31<'a> {
    #[verifier::type_invariant]
    spec fn tag_valid(self) -> bool {
        Op31::spec_decode(self.0@[0]) is Some
    }

    fn read(p: &'a [u8]) -> (r: Result<(InstOp31<'a>, usize), DecodeError>)
        ensures
            match decode_op31(p@) {
                Ok((iv, n)) => r is Ok && InstView::Op31(
                    r.unwrap().0@.0,
                    r.unwrap().0@.1,
                    r.unwrap().0@.2,
                    r.unwrap().0@.3,
                ) == iv && r.unwrap().1 == n && n <= p@.len(),
                Err(e) => r == Err::<(InstOp31<'a>, usize), DecodeError>(e),
            },
    {
        if p.len() < 7 {
            return Err(DecodeError::Truncated);
        }
        let a = p.get_array::<7>(0);
        assert(a@[0] == p@[0]);
        assert(a@.subrange(1, 3) =~= p@.subrange(1, 3));
        assert(a@.subrange(3, 5) =~= p@.subrange(3, 5));
        assert(a@.subrange(5, 7) =~= p@.subrange(5, 7));
        match Op31::decode(a[0]) {
            Ok(_) => Ok((InstOp31(a), 7)),
            Err(e) => Err(e),
        }
    }

    pub fn op(self) -> (r: Op31)
        ensures
            r == self@.0,
    {
        proof {
            use_type_invariant(&self);
        }
        Op31::decode(self.0[0]).unwrap()
    }

    pub fn args(self) -> (r: [Id; 3])
        ensures
            r@.len() == 3,
            r@[0].0 == self@.1.0,
            r@[1].0 == self@.2.0,
            r@[2].0 == self@.3.0,
    {
        let s = self.0.as_slice();
        [Id(s.get_u16(1)), Id(s.get_u16(3)), Id(s.get_u16(5))]
    }
}

/// A return from the function.
#[derive(Clone, Copy)]
pub struct InstReturn<'a>(&'a [u8]);

impl<'a> View for InstReturn<'a> {
    type V = Seq<VarId>;

    /// The values returned.
    closed spec fn view(&self) -> Seq<VarId> {
        decode_ids(self.0@)
    }
}

impl<'a> InstReturn<'a> {
    #[verifier::type_invariant]
    spec fn whole_items(self) -> bool {
        self.0@.len() % 2 == 0
    }

    fn read(p: &'a [u8]) -> (r: Result<(InstReturn<'a>, usize), DecodeError>)
        ensures
            match decode_return(p@) {
                Ok((iv, n)) => r is Ok && InstView::Ret(r.unwrap().0@) == iv && r.unwrap().1 == n
                    && n <= p@.len(),
                Err(e) => r == Err::<(InstReturn<'a>, usize), DecodeError>(e),
            },
    {
        let len = p.len();
        if len < 2 {
            return Err(DecodeError::Truncated);
        }
        let n = p.get_u16(0) as usize;
        if len - 2 < 2 * n {
            return Err(DecodeError::Truncated);
        }
        Ok((InstReturn(slice_subrange(p, 2, 2 + 2 * n)), 2 + 2 * n))
    }

    pub fn args(self) -> (r: IdList<'a>)
        ensures
            r@ == self@,
    {
        proof {
            use_type_invariant(&self);
        }
        IdList(self.0)
    }
}

/// One decoded instruction.
#[derive(Clone, Copy)]
pub enum Inst<'a> {
    Block(InstBlock<'a>),
    Goto(InstGoto<'a>),
    If(InstIf<'a>),
    ImmBool(InstImmBool<'a>),
    ImmI6(InstImmI6<'a>),
    ImmI64(InstImmI64<'a>),
    Op11(InstOp11<'a>),
    Op21(InstOp21<'a>),
    Op31(InstOp31<'a>),
    Return(InstReturn<'a>),
}

impl<'a> View for Inst<'a> {
    type V = InstView;

    /// What the instruction says.
    open spec fn view(&self) -> InstView {
        match *self {
            Inst::Block(x) => InstView::Block(x@),
            Inst::Goto(x) => InstView::Goto(x@.0, x@.1),
            Inst::If(x) => InstView::If(
                x@.cond,
                x@.then_target,
                x@.then_args,
                x@.else_target,
                x@.else_args,
            ),
            Inst::ImmBool(x) => InstView::ImmBool(x@),
            Inst::ImmI6(x) => InstView::ImmI6(x@),
            Inst::ImmI64(x) => InstView::ImmI64(x@),
            Inst::Op11(x) => InstView::Op11(x@.0, x@.1),
            Inst::Op21(x) => InstView::Op21(x@.0, x@.1, x@.2),
            Inst::Op31(x) => InstView::Op31(x@.0, x@.1, x@.2, x@.3),
            Inst::Return(x) => InstView::Ret(x@),
        }
    }
}

impl<'a> Inst<'a> {
    /// The kind of the instruction.
    pub fn tag(&self) -> (r: InstTag)
        ensures
            r == match *self {
                Inst::Block(_) => InstTag::Block,
                Inst::Goto(_) => InstTag::Goto,
                Inst::If(_) => InstTag::If,
                Inst::ImmBool(_) => InstTag::ImmBool,
                Inst::ImmI6(_) => InstTag::ImmI6,
                Inst::ImmI64(_) => InstTag::ImmI64,
                Inst::Op11(_) => InstTag::Op11,
                Inst::Op21(_) => InstTag::Op21,
                Inst::Op31(_) => InstTag::Op31,
                Inst::Return(_) => InstTag::Return,
            },
    {
        match self {
            Inst::Block(_) => InstTag::Block,
            Inst::Goto(_) => InstTag::Goto,
            Inst::If(_) => InstTag::If,
            Inst::ImmBool(_) => InstTag::ImmBool,
            Inst::ImmI6(_) => InstTag::ImmI6,
            Inst::ImmI64(_) => InstTag::ImmI64,
            Inst::Op11(_) => InstTag::Op11,
            Inst::Op21(_) => InstTag::Op21,
            Inst::Op31(_) => InstTag::Op31,
            Inst::Return(_) => InstTag::Return,
        }
    }

    /// Reads the payload of the instruction of kind `tag` from the front of
    /// `p`, and says how many bytes it takes.
    fn read(tag: u8, p: &'a [u8]) -> (r: Result<(Inst<'a>, usize), DecodeError>)
        ensures
            match decode_payload(tag, p@) {
                Ok((iv, n)) => r is Ok && r.unwrap().0@ == iv && r.unwrap().1 == n && n <= p@.len(),
                Err(e) => r == Err::<(Inst<'a>, usize), DecodeError>(e),
            },
    {
        let kind = match InstTag::decode(tag) {
            Ok(k) => k,
            Err(e) => {
                return Err(e);
            },
        };
        match kind {
            InstTag::Block => match InstBlock::read(p) {
                Ok((x, n)) => Ok((Inst::Block(x), n)),
                Err(e) => Err(e),
            },
            InstTag::Goto => match read_arm(p) {
                Ok((a, n)) => Ok((Inst::Goto(InstGoto(a)), n)),
                Err(e) => Err(e),
            },
            InstTag::If => match InstIf::read(p) {
                Ok((x, n)) => Ok((Inst::If(x), n)),
                Err(e) => Err(e),
            },
            InstTag::ImmBool => {
                if p.len() < 1 {
                    return Err(DecodeError::Truncated);
                }
                Ok((Inst::ImmBool(InstImmBool(p.get_array::<1>(0))), 1))
            },
            InstTag::ImmI6 => {
                if p.len() < 1 {
                    return Err(DecodeError::Truncated);
                }
                Ok((Inst::ImmI6(InstImmI6(p.get_array::<1>(0))), 1))
            },
            InstTag::ImmI64 => {
                if p.len() < 8 {
                    return Err(DecodeError::Truncated);
                }
                Ok((Inst::ImmI64(InstImmI64(p.get_array::<8>(0))), 8))
            },
            InstTag::Op11 => match InstOp11::read(p) {
                Ok((x, n)) => Ok((Inst::Op11(x), n)),
                Err(e) => Err(e),
            },
            InstTag::Op21 => match InstOp21::read(p) {
                Ok((x, n)) => Ok((Inst::Op21(x), n)),
                Err(e) => Err(e),
            },
            InstTag::Op31 => match InstOp31::read(p) {
                Ok((x, n)) => Ok((Inst::Op31(x), n)),
                Err(e) => Err(e),
            },
            InstTag::Return => match InstReturn::read(p) {
                Ok((x, n)) => Ok((Inst::Return(x), n)),
                Err(e) => Err(e),
            },
        }
    }
}

/// An instruction stream.
#[derive(Clone, Copy)]
pub struct InstList<'a>(&'a [u8]);

impl<'a> View for InstList<'a> {
    type V = Seq<u8>;

    /// The bytes of the stream.
    closed spec fn view(&self) -> Seq<u8> {
        self.0@
    }
}

impl<'a> InstList<'a> {
    pub fn new(b: &'a [u8]) -> (r: InstList<'a>)
        ensures
            r@ == b@,
    {
        InstList(b)
    }

    /// Walks the stream from the front.
    pub fn iter(&self) -> (r: InstIter<'a>)
        ensures
            r@ == self@,
    {
        InstIter(self.0)
    }
}

/// A position in an instruction stream.
pub struct InstIter<'a>(&'a [u8]);

impl<'a> View for InstIter<'a> {
    type V = Seq<u8>;

    /// The bytes not yet decoded.
    closed spec fn view(&self) -> Seq<u8> {
        self.0@
    }
}

impl<'a> InstIter<'a> {
    /// Decodes the next instruction. There is none where the stream is at its
    /// end. After an error nothing is left to decode.
    pub fn next(&mut self) -> (r: Option<Result<Inst<'a>, DecodeError>>)
        ensures
            old(self)@.len() == 0 ==> r is None && final(self)@ == old(self)@,
            old(self)@.len() > 0 ==> match decode_inst(old(self)@) {
                Ok((iv, n)) => r is Some && r.unwrap() is Ok && r.unwrap().unwrap()@ == iv && 0 < n
                    <= old(self)@.len() && final(self)@ == old(self)@.subrange(
                    n,
                    old(self)@.len() as int,
                ),
                Err(e) => r == Some(Err::<Inst<'a>, DecodeError>(e)) && final(self)@ == Seq::<
                    u8,
                >::empty(),
            },
    {
        let s: &'a [u8] = self.0;
        let len = s.len();
        if len == 0 {
            return None;
        }
        let p = slice_subrange(s, 1, len);
        match Inst::read(s[0], p) {
            Ok((inst, n)) => {
                self.0 = slice_subrange(p, n, len - 1);
                assert(self.0@ =~= s@.subrange(1 + n, len as int));
                Some(Ok(inst))
            },
            Err(e) => {
                self.0 = slice_subrange(s, len, len);
                Some(Err(e))
            },
        }
    }
}

impl<'a> Inst<'a> {
    /// The instruction as an owned value.
    pub fn to_owned(&self) -> (r: crate::bytecode::Inst)
        ensures
            r@ == self@,
    {
        match *self {
            Inst::Block(x) => crate::bytecode::Inst::Block(x.params().to_vec()),
            Inst::Goto(x) => crate::bytecode::Inst::Goto(
                crate::bytecode::BlockId(x.target().0),
                x.args().to_vec(),
            ),
            Inst::If(x) => {
                let t = x.targets();
                crate::bytecode::Inst::If(
                    x.cond(),
                    crate::bytecode::BlockId(t[0].0),
                    x.then_args().to_vec(),
                    crate::bytecode::BlockId(t[1].0),
                    x.else_args().to_vec(),
                )
            },
            Inst::ImmBool(x) => crate::bytecode::Inst::ImmBool(x.imm()),
            Inst::ImmI6(x) => crate::bytecode::Inst::ImmI6(x.imm()),
            Inst::ImmI64(x) => crate::bytecode::Inst::ImmI64(x.imm()),
            Inst::Op11(x) => {
                let a = x.args();
                crate::bytecode::Inst::Op11(x.op(), VarId(a[0].0))
            },
            Inst::Op21(x) => {
                let a = x.args();
                crate::bytecode::Inst::Op21(x.op(), VarId(a[0].0), VarId(a[1].0))
            },
            Inst::Op31(x) => {
                let a = x.args();
                crate::bytecode::Inst::Op31(x.op(), VarId(a[0].0), VarId(a[1].0), VarId(a[2].0))
            },
            Inst::Return(x) => crate::bytecode::Inst::Ret(x.args().to_vec()),
        }
    }
}

/// `acc` followed by the instructions of `r`, or the defect that `r` reports.
pub open spec fn after(acc: Seq<InstView>, r: Result<Seq<InstView>, DecodeError>) -> Result<
    Seq<InstView>,
    DecodeError,
> {
    match r {
        Ok(s) => Ok(acc + s),
        Err(e) => Err(e),
    }
}

impl<'a> InstList<'a> {
    /// Decodes the whole stream into owned instructions.
    pub fn decode(&self) -> (r: Result<Vec<crate::bytecode::Inst>, DecodeError>)
        ensures
            match decode_code(self@) {
                Ok(code) => r is Ok && code_view(r.unwrap()@) == code,
                Err(e) => r == Err::<Vec<crate::bytecode::Inst>, DecodeError>(e),
            },
            r matches Ok(code) ==> code@.len() < usize::MAX - 1,
    {
        proof {
            lemma_code_shorter_than_bytes(self@);
        }
        let _ = self.0.len();
        let mut it = self.iter();
        let mut acc: Vec<crate::bytecode::Inst> = Vec::new();
        assert(after(code_view(acc@), decode_code(it@)) == decode_code(self@)) by {
            match decode_code(it@) {
                Ok(c) => assert(code_view(acc@) + c =~= c),
                Err(_) => {},
            }
        }
        loop
            invariant
                after(code_view(acc@), decode_code(it@)) == decode_code(self@),
                self@.len() <= usize::MAX,
                decode_code(self@) matches Ok(code) ==> 2 * code.len() <= self@.len(),
            decreases it@.len(),
        {
            let ghost before = it@;
            let ghost acc0 = acc@;
            match it.next() {
                None => {
                    assert(code_view(acc@) + Seq::<InstView>::empty() =~= code_view(acc@));
                    assert(code_view(acc@).len() == acc@.len());
                    return Ok(acc);
                },
                Some(Err(e)) => {
                    return Err(e);
                },
                Some(Ok(inst)) => {
                    acc.push(inst.to_owned());
                    proof {
                        let (iv, n) = decode_inst(before).unwrap();
                        assert(code_view(acc@) =~= code_view(acc0) + seq![iv]);
                        match decode_code(it@) {
                            Ok(c) => assert(code_view(acc0) + (seq![iv] + c) =~= code_view(acc@)
                                + c),
                            Err(_) => {},
                        }
                    }
                },
            }
        }
    }
}

/// The input types of a function record.
pub open spec fn decode_inputs(b: Seq<u8>) -> Result<Seq<Ty>, DecodeError> {
    match spec_field(b, 3, 1) {
        Err(e) => Err(e),
        Ok(s) => match spec_field(s, 2, 0) {
            Err(e) => Err(e),
            Ok(i) => decode_types(i),
        },
    }
}

/// The output types of a function record.
pub open spec fn decode_outputs(b: Seq<u8>) -> Result<Seq<Ty>, DecodeError> {
    match spec_field(b, 3, 1) {
        Err(e) => Err(e),
        Ok(s) => match spec_field(s, 2, 1) {
            Err(e) => Err(e),
            Ok(o) => decode_types(o),
        },
    }
}

/// The signature of a function of an encoded program: a record of the
/// input types and the output types.
#[derive(Clone, Copy)]
pub struct Sig<'a>(&'a [u8]);

impl<'a> View for Sig<'a> {
    type V = Seq<u8>;

    /// The bytes of the signature record.
    closed spec fn view(&self) -> Seq<u8> {
        self.0@
    }
}

impl<'a> Sig<'a> {
    pub fn new(b: &'a [u8]) -> (r: Sig<'a>)
        ensures
            r@ == b@,
    {
        Sig(b)
    }

    /// The input types.
    pub fn inputs(self) -> (r: Result<TyList<'a>, DecodeError>)
        ensures
            match spec_field(self@, 2, 0) {
                Ok(b) => match decode_types(b) {
                    Ok(tys) => r is Ok && r.unwrap()@ == tys,
                    Err(e) => r == Err::<TyList<'a>, DecodeError>(e),
                },
                Err(e) => r == Err::<TyList<'a>, DecodeError>(e),
            },
    {
        match field::<2, 0>(self.0) {
            Ok(b) => TyList::new(b),
            Err(e) => Err(e),
        }
    }

    /// The output types.
    pub fn outputs(self) -> (r: Result<TyList<'a>, DecodeError>)
        ensures
            match spec_field(self@, 2, 1) {
                Ok(b) => match decode_types(b) {
                    Ok(tys) => r is Ok && r.unwrap()@ == tys,
                    Err(e) => r == Err::<TyList<'a>, DecodeError>(e),
                },
                Err(e) => r == Err::<TyList<'a>, DecodeError>(e),
            },
    {
        match field::<2, 1>(self.0) {
            Ok(b) => TyList::new(b),
            Err(e) => Err(e),
        }
    }
}

/// One function of an encoded program.
#[derive(Clone, Copy)]
pub struct Fun<'a>(&'a [u8]);

impl<'a> View for Fun<'a> {
    type V = Seq<u8>;

    /// The bytes of the function record.
    closed spec fn view(&self) -> Seq<u8> {
        self.0@
    }
}

impl<'a> Fun<'a> {
    pub fn new(b: &'a [u8]) -> (r: Fun<'a>)
        ensures
            r@ == b@,
    {
        Fun(b)
    }

    /// The name of the function.
    pub fn name(self) -> (r: Result<&'a str, DecodeError>)
        ensures
            match decode_name(self@) {
                Ok(n) => r is Ok && r.unwrap()@ == n,
                Err(e) => r == Err::<&'a str, DecodeError>(e),
            },
    {
        let b = match field::<3, 0>(self.0) {
            Ok(b) => b,
            Err(e) => {
                return Err(e);
            },
        };
        match utf8_text(b) {
            Some(s) => Ok(s),
            None => Err(DecodeError::InvalidName),
        }
    }

    /// The signature of the function.
    pub fn signature(self) -> (r: Result<Sig<'a>, DecodeError>)
        ensures
            match spec_field(self@, 3, 1) {
                Ok(s) => r is Ok && r.unwrap()@ == s,
                Err(e) => r == Err::<Sig<'a>, DecodeError>(e),
            },
    {
        match field::<3, 1>(self.0) {
            Ok(s) => Ok(Sig(s)),
            Err(e) => Err(e),
        }
    }

    /// The types that the function takes.
    pub fn input_ty_list(self) -> (r: Result<TyList<'a>, DecodeError>)
        ensures
            match decode_inputs(self@) {
                Ok(tys) => r is Ok && r.unwrap()@ == tys,
                Err(e) => r == Err::<TyList<'a>, DecodeError>(e),
            },
    {
        match self.signature() {
            Ok(s) => s.inputs(),
            Err(e) => Err(e),
        }
    }

    /// The types that the function returns.
    pub fn output_ty_list(self) -> (r: Result<TyList<'a>, DecodeError>)
        ensures
            match decode_outputs(self@) {
                Ok(tys) => r is Ok && r.unwrap()@ == tys,
                Err(e) => r == Err::<TyList<'a>, DecodeError>(e),
            },
    {
        match self.signature() {
            Ok(s) => s.outputs(),
            Err(e) => Err(e),
        }
    }

    /// The instruction stream of the function.
    pub fn inst_list(self) -> (r: Result<InstList<'a>, DecodeError>)
        ensures
            match spec_field(self@, 3, 2) {
                Ok(c) => r is Ok && r.unwrap()@ == c,
                Err(e) => r == Err::<InstList<'a>, DecodeError>(e),
            },
    {
        match field::<3, 2>(self.0) {
            Ok(b) => Ok(InstList(b)),
            Err(e) => Err(e),
        }
    }

    /// Decodes the whole function into an owned value.
    pub fn decode(self) -> (r: Result<Function, DecodeError>)
        ensures
            match decode_function(self@) {
                Ok(f) => r is Ok && r.unwrap()@ == f,
                Err(e) => r == Err::<Function, DecodeError>(e),
            },
            r matches Ok(f) ==> f.code@.len() < usize::MAX - 1,
    {
        let name = match self.name() {
            Ok(n) => n.to_owned(),
            Err(e) => {
                return Err(e);
            },
        };
        let inputs = match self.input_ty_list() {
            Ok(l) => l.to_vec(),
            Err(e) => {
                return Err(e);
            },
        };
        let outputs = match self.output_ty_list() {
            Ok(l) => l.to_vec(),
            Err(e) => {
                return Err(e);
            },
        };
        let code = match self.inst_list() {
            Ok(l) => match l.decode() {
                Ok(c) => c,
                Err(e) => {
                    return Err(e);
                },
            },
            Err(e) => {
                return Err(e);
            },
        };
        Ok(Function { name, signature: Signature { inputs, outputs }, code })
    }
}

/// A position in the functions of an encoded program.
#[derive(Clone, Copy)]
pub struct FunIter<'a>(IterVariableSized<'a>);

impl<'a> View for FunIter<'a> {
    type V = Seq<u8>;

    /// The bytes not yet walked.
    closed spec fn view(&self) -> Seq<u8> {
        self.0@
    }
}

impl<'a> FunIter<'a> {
    /// The next function. After an error nothing is left to walk.
    pub fn next(&mut self) -> (r: Option<Result<Fun<'a>, DecodeError>>)
        ensures
            match crate::bc::first_variable_sized(old(self)@) {
                None => r is None && final(self)@ == old(self)@,
                Some(Err(e)) => r == Some(Err::<Fun<'a>, DecodeError>(e)) && final(self)@
                    == Seq::<u8>::empty(),
                Some(Ok((item, rest))) => r is Some && r.unwrap() is Ok && r.unwrap().unwrap()@
                    == item && final(self)@ == rest,
            },
    {
        match self.0.next() {
            None => None,
            Some(Err(e)) => Some(Err(e)),
            Some(Ok(b)) => Some(Ok(Fun(b))),
        }
    }
}

/// The functions of an encoded program: each behind its byte length.
#[derive(Clone, Copy)]
pub struct FunList<'a>(&'a [u8]);

impl<'a> View for FunList<'a> {
    type V = Seq<u8>;

    /// The bytes of the list.
    closed spec fn view(&self) -> Seq<u8> {
        self.0@
    }
}

impl<'a> FunList<'a> {
    /// Walks the functions from the front.
    pub fn iter(self) -> (r: FunIter<'a>)
        ensures
            r@ == self@,
    {
        FunIter(iter_variable_sized(self.0))
    }
}

/// An encoded program.
#[derive(Clone, Copy)]
pub struct Prog<'a>(&'a [u8]);

impl<'a> View for Prog<'a> {
    type V = Seq<u8>;

    /// The bytes of the program.
    closed spec fn view(&self) -> Seq<u8> {
        self.0@
    }
}

/// `acc` followed by the functions of `r`, or the defect that `r` reports.
pub open spec fn after_functions(
    acc: Seq<FunctionView>,
    r: Result<Seq<FunctionView>, DecodeError>,
) -> Result<Seq<FunctionView>, DecodeError> {
    match r {
        Ok(s) => Ok(acc + s),
        Err(e) => Err(e),
    }
}

/// What each function of a list says.
pub open spec fn functions_view(fs: Seq<Function>) -> Seq<FunctionView> {
    Seq::new(fs.len(), |i: int| fs[i]@)
}

impl<'a> Prog<'a> {
    pub fn new(b: &'a [u8]) -> (r: Prog<'a>)
        ensures
            r@ == b@,
    {
        Prog(b)
    }

    /// The functions of the program. A program is a record of one field,
    /// which has no offsets and spans the whole record.
    pub fn fun_list(self) -> (r: FunList<'a>)
        ensures
            r@ == self@,
    {
        assert(self@.subrange(0, self@.len() as int) =~= self@);
        FunList(field::<1, 0>(self.0).unwrap())
    }

    /// Decodes the whole program into an owned value, function by function,
    /// and stops at the first defect.
    pub fn decode(self) -> (r: Result<Program, DecodeError>)
        ensures
            match decode_program(self@) {
                Ok(p) => r is Ok && r.unwrap()@ == p,
                Err(e) => r == Err::<Program, DecodeError>(e),
            },
    {
        let mut it = self.fun_list().iter();
        let mut acc: Vec<Function> = Vec::new();
        assert(after_functions(functions_view(acc@), decode_program(it@)) == decode_program(self@))
            by {
            match decode_program(it@) {
                Ok(c) => assert(functions_view(acc@) + c =~= c),
                Err(_) => {},
            }
        }
        loop
            invariant
                after_functions(functions_view(acc@), decode_program(it@)) == decode_program(
                    self@,
                ),
            decreases it@.len(),
        {
            let ghost acc0 = acc@;
            match it.next() {
                None => {
                    assert(functions_view(acc@) + Seq::<FunctionView>::empty() =~= functions_view(
                        acc@,
                    ));
                    let p = Program { functions: acc };
                    assert(p@ =~= functions_view(acc@));
                    return Ok(p);
                },
                Some(Err(e)) => {
                    return Err(e);
                },
                Some(Ok(fun)) => {
                    match fun.decode() {
                        Err(e) => {
                            return Err(e);
                        },
                        Ok(f) => {
                            acc.push(f);
                            proof {
                                let fv = f@;
                                assert(functions_view(acc@) =~= functions_view(acc0) + seq![fv]);
                                match decode_program(it@) {
                                    Ok(c) => assert(functions_view(acc0) + (seq![fv] + c)
                                        =~= functions_view(acc@) + c),
                                    Err(_) => {},
                                }
                            }
                        },
                    }
                },
            }
        }
    }
}

/// What each item of a list of decoded functions says.
pub open spec fn items_view(items: Seq<Result<Function, DecodeError>>) -> Seq<
    Result<FunctionView, DecodeError>,
> {
    Seq::new(
        items.len(),
        |i: int|
            match items[i] {
                Ok(f) => Ok(f@),
                Err(e) => Err(e),
            },
    )
}

/// `acc` followed by the items of `r`, or the defect that `r` reports.
pub open spec fn after_items(
    acc: Seq<Result<FunctionView, DecodeError>>,
    r: Result<Seq<Result<FunctionView, DecodeError>>, DecodeError>,
) -> Result<Seq<Result<FunctionView, DecodeError>>, DecodeError> {
    match r {
        Ok(s) => Ok(acc + s),
        Err(e) => Err(e),
    }
}

impl<'a> Prog<'a> {
    /// Decodes each function of the program on its own. A function record
    /// with a defect gives that defect in its place and the walk goes on; a
    /// defect in the framing of the records ends the walk with that defect.
    pub fn decode_each(self) -> (r: Result<Vec<Result<Function, DecodeError>>, DecodeError>)
        ensures
            match decode_items(self@) {
                Ok(items) => r is Ok && items_view(r.unwrap()@) == items,
                Err(e) => r == Err::<Vec<Result<Function, DecodeError>>, DecodeError>(e),
            },
            r matches Ok(items) ==> forall|i: int|
                0 <= i < items@.len() ==> ((#[trigger] items@[i]) matches Ok(f) ==> f.code@.len()
                    < usize::MAX - 1),
    {
        let mut it = self.fun_list().iter();
        let mut acc: Vec<Result<Function, DecodeError>> = Vec::new();
        assert(after_items(items_view(acc@), decode_items(it@)) == decode_items(self@)) by {
            match decode_items(it@) {
                Ok(c) => assert(items_view(acc@) + c =~= c),
                Err(_) => {},
            }
        }
        loop
            invariant
                after_items(items_view(acc@), decode_items(it@)) == decode_items(self@),
                forall|i: int|
                    0 <= i < acc@.len() ==> ((#[trigger] acc@[i]) matches Ok(f) ==> f.code@.len()
                        < usize::MAX - 1),
            decreases it@.len(),
        {
            let ghost acc0 = acc@;
            match it.next() {
                None => {
                    assert(items_view(acc@) + Seq::<Result<FunctionView, DecodeError>>::empty()
                        =~= items_view(acc@));
                    return Ok(acc);
                },
                Some(Err(e)) => {
                    return Err(e);
                },
                Some(Ok(fun)) => {
                    let item = fun.decode();
                    let ghost iv = decode_function(fun@);
                    acc.push(item);
                    proof {
                        assert(items_view(acc@) =~= items_view(acc0) + seq![iv]);
                        match decode_items(it@) {
                            Ok(c) => assert(items_view(acc0) + (seq![iv] + c) =~= items_view(acc@)
                                + c),
                            Err(_) => {},
                        }
                    }
                },
            }
        }
    }
}

} // verus!
