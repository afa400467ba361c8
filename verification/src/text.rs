//! Programs and numbers written out as text.

use vstd::prelude::*;
use vstd::string::StringExecFns;
use crate::error::DecodeError;
use crate::ir_bytecode::{decode_inputs, decode_outputs, BlockId, Fun, Id, Prog};
use crate::ir_ty::Ty;
use crate::wire::decode_name;
use crate::bc::first_variable_sized;

verus! {

/// The character of a decimal digit.
pub open spec fn digit(d: nat) -> char {
    if d == 0 {
        '0'
    } else if d == 1 {
        '1'
    } else if d == 2 {
        '2'
    } else if d == 3 {
        '3'
    } else if d == 4 {
        '4'
    } else if d == 5 {
        '5'
    } else if d == 6 {
        '6'
    } else if d == 7 {
        '7'
    } else if d == 8 {
        '8'
    } else {
        '9'
    }
}

/// A number in decimal, without leading zeros.
pub open spec fn decimal(n: nat) -> Seq<char>
    decreases n,
{
    if n < 10 {
        seq![digit(n)]
    } else {
        decimal(n / 10).push(digit(n % 10))
    }
}

/// The text of one decimal digit.
fn digit_text(d: usize) -> (r: &'static str)
    requires
        d < 10,
    ensures
        r@ == seq![digit(d as nat)],
{
    proof {
        reveal_strlit("0");
        reveal_strlit("1");
        reveal_strlit("2");
        reveal_strlit("3");
        reveal_strlit("4");
        reveal_strlit("5");
        reveal_strlit("6");
        reveal_strlit("7");
        reveal_strlit("8");
        reveal_strlit("9");
    }
    let r = if d == 0 {
        "0"
    } else if d == 1 {
        "1"
    } else if d == 2 {
        "2"
    } else if d == 3 {
        "3"
    } else if d == 4 {
        "4"
    } else if d == 5 {
        "5"
    } else if d == 6 {
        "6"
    } else if d == 7 {
        "7"
    } else if d == 8 {
        "8"
    } else {
        "9"
    };
    assert(r@ =~= seq![digit(d as nat)]);
    r
}

/// Writes a number in decimal after what `out` holds.
pub fn write_decimal(out: &mut String, n: usize)
    ensures
        final(out)@ == old(out)@ + decimal(n as nat),
    decreases n,
{
    if n >= 10 {
        write_decimal(out, n / 10);
    }
    out.append(digit_text(n % 10));
    assert(out@ =~= old(out)@ + decimal(n as nat));
}

impl Id {
    /// The index in decimal.
    pub fn to_text(&self) -> (r: String)
        ensures
            r@ == decimal(self.0 as nat),
    {
        let mut out = String::new();
        write_decimal(&mut out, self.0 as usize);
        assert(out@ =~= decimal(self.0 as nat));
        out
    }
}

impl BlockId {
    /// The index in decimal.
    pub fn to_text(&self) -> (r: String)
        ensures
            r@ == decimal(self.0 as nat),
    {
        let mut out = String::new();
        write_decimal(&mut out, self.0 as usize);
        assert(out@ =~= decimal(self.0 as nat));
        out
    }
}

/// The inputs of a function from position `i` on, each as ` %index:type`.
pub open spec fn inputs_text(tys: Seq<Ty>, i: int) -> Seq<char>
    decreases tys.len() - i,
{
    if i < 0 || i >= tys.len() {
        Seq::empty()
    } else {
        " %"@ + decimal(i as nat) + ":"@ + tys[i].spec_name() + inputs_text(tys, i + 1)
    }
}

/// The outputs of a function from position `i` on, each as ` type`.
pub open spec fn outputs_text(tys: Seq<Ty>, i: int) -> Seq<char>
    decreases tys.len() - i,
{
    if i < 0 || i >= tys.len() {
        Seq::empty()
    } else {
        " "@ + tys[i].spec_name() + outputs_text(tys, i + 1)
    }
}

/// The heading of a function: its name and its signature, and a blank line.
pub open spec fn heading(name: Seq<char>, inputs: Seq<Ty>, outputs: Seq<Ty>) -> Seq<char> {
    "function "@ + name + " ("@ + inputs_text(inputs, 0) + " ) -> ("@ + outputs_text(outputs, 0)
        + " ):\n"@ + "\n"@
}

/// The heading of the function that a record holds, or the first defect in
/// its name or its signature.
pub open spec fn fun_text(b: Seq<u8>) -> Result<Seq<char>, DecodeError> {
    match decode_name(b) {
        Err(e) => Err(e),
        Ok(name) => match decode_inputs(b) {
            Err(e) => Err(e),
            Ok(inputs) => match decode_outputs(b) {
                Err(e) => Err(e),
                Ok(outputs) => Ok(heading(name, inputs, outputs)),
            },
        },
    }
}

/// The headings of the functions of a program and a blank line behind them,
/// or the first defect.
pub open spec fn prog_text(b: Seq<u8>) -> Result<Seq<char>, DecodeError>
    decreases b.len(),
{
    match first_variable_sized(b) {
        None => Ok("\n"@),
        Some(Err(e)) => Err(e),
        Some(Ok((item, rest))) => match fun_text(item) {
            Err(e) => Err(e),
            Ok(t) => match prog_text(rest) {
                Err(e) => Err(e),
                Ok(ts) => Ok(t + ts),
            },
        },
    }
}

/// The text `acc` followed by the text of `r`, or the defect of `r`.
pub open spec fn text_after(acc: Seq<char>, r: Result<Seq<char>, DecodeError>) -> Result<
    Seq<char>,
    DecodeError,
> {
    match r {
        Ok(t) => Ok(acc + t),
        Err(e) => Err(e),
    }
}

impl<'a> Fun<'a> {
    /// Writes the heading of the function after what `out` holds. Where the
    /// name or the signature has a defect, what `out` holds then is not
    /// said.
    pub fn write_heading(self, out: &mut String) -> (r: Result<(), DecodeError>)
        ensures
            match fun_text(self@) {
                Ok(t) => r is Ok && final(out)@ == old(out)@ + t,
                Err(e) => r == Err::<(), DecodeError>(e),
            },
    {
        let name = match self.name() {
            Ok(n) => n,
            Err(e) => {
                return Err(e);
            },
        };
        let inputs = match self.input_ty_list() {
            Ok(l) => l,
            Err(e) => {
                return Err(e);
            },
        };
        let outputs = match self.output_ty_list() {
            Ok(l) => l,
            Err(e) => {
                return Err(e);
            },
        };
        out.append("function ");
        out.append(name);
        out.append(" (");
        let ghost head = out@;
        let n = inputs.len();
        let mut i: usize = 0;
        assert(inputs_text(inputs@, n as int) =~= Seq::<char>::empty());
        while i < n
            invariant
                n == inputs@.len(),
                i <= n,
                out@ + inputs_text(inputs@, i as int) == head + inputs_text(inputs@, 0),
            decreases n - i,
        {
            let ghost before = out@;
            out.append(" %");
            write_decimal(out, i);
            out.append(":");
            out.append(inputs.get(i).name());
            proof {
                assert(before + (" %"@ + decimal(i as nat) + ":"@ + inputs@[i as int].spec_name()
                    + inputs_text(inputs@, i + 1)) =~= out@ + inputs_text(inputs@, i + 1));
            }
            i += 1;
        }
        assert(out@ =~= head + inputs_text(inputs@, 0));
        out.append(" ) -> (");
        let ghost middle = out@;
        let m = outputs.len();
        let mut j: usize = 0;
        assert(outputs_text(outputs@, m as int) =~= Seq::<char>::empty());
        while j < m
            invariant
                m == outputs@.len(),
                j <= m,
                out@ + outputs_text(outputs@, j as int) == middle + outputs_text(outputs@, 0),
            decreases m - j,
        {
            let ghost before = out@;
            out.append(" ");
            out.append(outputs.get(j).name());
            proof {
                assert(before + (" "@ + outputs@[j as int].spec_name() + outputs_text(
                    outputs@,
                    j + 1,
                )) =~= out@ + outputs_text(outputs@, j + 1));
            }
            j += 1;
        }
        assert(out@ =~= middle + outputs_text(outputs@, 0));
        out.append(" ):\n");
        out.append("\n");
        assert(out@ =~= old(out)@ + heading(name@, inputs@, outputs@));
        Ok(())
    }
}

impl<'a> Prog<'a> {
    /// The headings of the functions of the program, each followed by a
    /// blank line, and a blank line at the end.
    pub fn to_text(self) -> (r: Result<String, DecodeError>)
        ensures
            match prog_text(self@) {
                Ok(t) => r is Ok && r.unwrap()@ == t,
                Err(e) => r == Err::<String, DecodeError>(e),
            },
    {
        let mut out = String::new();
        let mut it = self.fun_list().iter();
        assert(text_after(out@, prog_text(it@)) == prog_text(self@)) by {
            match prog_text(it@) {
                Ok(t) => assert(out@ + t =~= t),
                Err(_) => {},
            }
        }
        loop
            invariant
                text_after(out@, prog_text(it@)) == prog_text(self@),
            decreases it@.len(),
        {
            let ghost before = out@;
            match it.next() {
                None => {
                    out.append("\n");
                    return Ok(out);
                },
                Some(Err(e)) => {
                    return Err(e);
                },
                Some(Ok(fun)) => {
                    match fun.write_heading(&mut out) {
                        Ok(()) => {
                            proof {
                                let t = fun_text(fun@).unwrap();
                                match prog_text(it@) {
                                    Ok(ts) => assert(before + (t + ts) =~= out@ + ts),
                                    Err(_) => {},
                                }
                            }
                        },
                        Err(e) => {
                            return Err(e);
                        },
                    }
                },
            }
        }
    }
}

} // verus!
