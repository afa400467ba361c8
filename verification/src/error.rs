//! The errors that decoding, validation and lowering report.

use vstd::prelude::*;

verus! {

/// A defect found while reading the byte stream.
#[derive(Clone, Copy, Debug, PartialEq, Eq, Structural)]
pub enum DecodeError {
    /// Fewer bytes remain than the item being read needs.
    Truncated,
    /// A tag byte lies outside the range of its enumeration.
    InvalidTag,
    /// An offset or a byte length contradicts the record that holds it.
    InvalidLength,
    /// A function name is not valid UTF-8.
    InvalidName,
}

/// Why a program cannot be written in the wire format.
#[derive(Clone, Copy, Debug, PartialEq, Eq, Structural)]
pub enum EncodeError {
    /// A list has more items, or a record more bytes, than its count or its
    /// offsets can express.
    TooLong,
}

/// A defect found while holding an instruction against the opcode tables, the
/// function signature and the block declarations.
#[derive(Clone, Copy, Debug, PartialEq, Eq, Structural)]
pub enum TypeError {
    /// An operand or argument has a type other than the one its position asks for.
    OperandTypeMismatch,
    /// An argument list has a length other than the one its target declares.
    ArityMismatch,
    /// A variable is used that no earlier instruction defines.
    UndeclaredVariable,
    /// A block is named that the stream never declares, or an instruction
    /// stands where no block is open.
    UndeclaredBlock,
}

/// A failure reported while driving the code generator.
#[derive(Clone, Copy, Debug, PartialEq, Eq, Structural)]
pub enum LoweringError {
    /// The code generator has no support on the target for an operation
    /// that the lowering handed it. This is a gap in the lowering, and ends
    /// compiling as a whole.
    UnsupportedOpcodeForTarget,
    /// The code generator rejected a function's declaration or body as
    /// inconsistent with its signature.
    SignatureMismatch,
    /// The target triple cannot be read, the code generator makes no
    /// objects for it, or the name of the module holds the character of code
    /// zero.
    UnusableTarget,
    /// The object could not be written out.
    WriteFailed,
    /// The code generator refused a function that passed validation, for a
    /// reason other than a missing operation or a clash of signatures.
    Refused,
    /// A function gives a block more parameters, or defines more values,
    /// than the code generator can number, or comes when the module has
    /// been asked all that it can number.
    TooLarge,
}

/// Why a function could not be compiled.
#[derive(Clone, Copy, Debug, PartialEq, Eq, Structural)]
pub enum CompileError {
    Decode(DecodeError),
    Type(TypeError),
    Lowering(LoweringError),
}

} // verus!
