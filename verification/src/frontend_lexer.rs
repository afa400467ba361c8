//! The lexer of the surface syntax: a state machine over the bytes of the
//! source that cuts it into tokens.

use vstd::prelude::*;
use vstd::slice::slice_subrange;
use crate::frontend_token::Token;

verus! {

/// The class of a byte, which is all that the state machine reads of it.
#[derive(Clone, Copy, Debug, PartialEq, Eq, Structural)]
pub enum Kind {
    Digit,
    Dot,
    Hash,
    LF,
    Letter,
    Operator,
    Punctuation,
    Sign,
    Space,
    Underscore,
    Unknown,
}

/// A state of the machine. The states from `TerminalDot` on end a token.
#[derive(Clone, Copy, Debug, PartialEq, Eq, Structural)]
pub enum State {
    Start,
    Comment,
    Dot,
    Number,
    Operator,
    Sign,
    Space,
    Symbol,
    TerminalDot,
    TerminalNumber,
    TerminalOperator,
    TerminalPunctuation,
    TerminalSpace,
    TerminalSymbol,
    TerminalUnknownCharacter,
}

impl Kind {
    /// The class of the byte `c`.
    pub open spec fn spec_classify(c: u8) -> Kind {
        if c == 9 || c == 32 {
            // tab space
            Kind::Space
        } else if c == 10 {
            // line feed
            Kind::LF
        } else if c == 35 {
            // #
            Kind::Hash
        } else if c == 46 {
            // .
            Kind::Dot
        } else if c == 43 || c == 45 {
            // + -
            Kind::Sign
        } else if c == 95 {
            // _
            Kind::Underscore
        } else if 48 <= c && c <= 57 {
            // 0 to 9
            Kind::Digit
        } else if (65 <= c && c <= 90) || (97 <= c && c <= 122) {
            // A to Z a to z
            Kind::Letter
        } else if c == 40
            || c == 41 || c == 44 || c == 58 || c == 59 || c == 91 || c == 93 || c == 123
            || c == 125 {
            // ( ) , : ; [ ] { }
            Kind::Punctuation
        } else if c == 33
            || c == 36 || c == 37 || c == 38 || c == 42 || c == 47 || c == 60 || c == 61
            || c == 62 || c == 63 || c == 64 || c == 94 || c == 124 || c == 126 {
            // ! $ % & * / < = > ? @ ^ | ~
            Kind::Operator
        } else {
            Kind::Unknown
        }
    }

    /// Classifies a byte.
    pub fn classify(c: u8) -> (r: Kind)
        ensures
            r == Kind::spec_classify(c),
    {
        if c == 9 || c == 32 {
            // tab space
            Kind::Space
        } else if c == 10 {
            // line feed
            Kind::LF
        } else if c == 35 {
            // #
            Kind::Hash
        } else if c == 46 {
            // .
            Kind::Dot
        } else if c == 43 || c == 45 {
            // + -
            Kind::Sign
        } else if c == 95 {
            // _
            Kind::Underscore
        } else if 48 <= c && c <= 57 {
            // 0 to 9
            Kind::Digit
        } else if (65 <= c && c <= 90) || (97 <= c && c <= 122) {
            // A to Z a to z
            Kind::Letter
        } else if c == 40
            || c == 41 || c == 44 || c == 58 || c == 59 || c == 91 || c == 93 || c == 123
            || c == 125 {
            // ( ) , : ; [ ] { }
            Kind::Punctuation
        } else if c == 33
            || c == 36 || c == 37 || c == 38 || c == 42 || c == 47 || c == 60 || c == 61
            || c == 62 || c == 63 || c == 64 || c == 94 || c == 124 || c == 126 {
            // ! $ % & * / < = > ? @ ^ | ~
            Kind::Operator
        } else {
            Kind::Unknown
        }
    }
}

impl State {
    /// Whether the state ends a token.
    pub open spec fn spec_is_terminal(self) -> bool {
        match self {
            State::TerminalDot
            | State::TerminalNumber
            | State::TerminalOperator
            | State::TerminalPunctuation
            | State::TerminalSpace
            | State::TerminalSymbol
            | State::TerminalUnknownCharacter => true,
            _ => false,
        }
    }

    /// Whether the state ends a token.
    pub fn is_terminal(self) -> (r: bool)
        ensures
            r == self.spec_is_terminal(),
    {
        match self {
            State::TerminalDot
            | State::TerminalNumber
            | State::TerminalOperator
            | State::TerminalPunctuation
            | State::TerminalSpace
            | State::TerminalSymbol
            | State::TerminalUnknownCharacter => true,
            _ => false,
        }
    }

    /// The state that follows `s` on a byte of class `k`. A state that ends
    /// a token has no successor but itself.
    pub open spec fn spec_jump(s: State, k: Kind) -> State {
        match s {
            State::Start => match k {
                Kind::Digit => State::Number,
                Kind::Dot => State::Dot,
                Kind::Hash => State::Comment,
                Kind::Letter | Kind::Underscore => State::Symbol,
                Kind::Operator => State::Operator,
                Kind::Punctuation => State::TerminalPunctuation,
                Kind::Sign => State::Sign,
                Kind::Unknown => State::TerminalUnknownCharacter,
                _ => State::Space,
            },
            State::Comment => match k {
                Kind::LF => State::Space,
                _ => State::Comment,
            },
            State::Dot => match k {
                Kind::Dot => State::Dot,
                _ => State::TerminalDot,
            },
            State::Number => match k {
                Kind::Digit | Kind::Dot | Kind::Underscore => State::Number,
                _ => State::TerminalNumber,
            },
            State::Operator => match k {
                Kind::Operator | Kind::Sign => State::Operator,
                _ => State::TerminalOperator,
            },
            State::Sign => match k {
                Kind::Digit => State::Number,
                Kind::Operator | Kind::Sign => State::Operator,
                _ => State::TerminalOperator,
            },
            State::Space => match k {
                Kind::Hash => State::Comment,
                Kind::LF | Kind::Space => State::Space,
                _ => State::TerminalSpace,
            },
            State::Symbol => match k {
                Kind::Digit | Kind::Letter | Kind::Underscore => State::Symbol,
                _ => State::TerminalSymbol,
            },
            _ => s,
        }
    }

    /// The state that follows `s` on a byte of class `k`.
    pub fn jump(s: State, k: Kind) -> (r: State)
        ensures
            r == State::spec_jump(s, k),
    {
        match s {
            State::Start => match k {
                Kind::Digit => State::Number,
                Kind::Dot => State::Dot,
                Kind::Hash => State::Comment,
                Kind::Letter | Kind::Underscore => State::Symbol,
                Kind::Operator => State::Operator,
                Kind::Punctuation => State::TerminalPunctuation,
                Kind::Sign => State::Sign,
                Kind::Unknown => State::TerminalUnknownCharacter,
                _ => State::Space,
            },
            State::Comment => match k {
                Kind::LF => State::Space,
                _ => State::Comment,
            },
            State::Dot => match k {
                Kind::Dot => State::Dot,
                _ => State::TerminalDot,
            },
            State::Number => match k {
                Kind::Digit | Kind::Dot | Kind::Underscore => State::Number,
                _ => State::TerminalNumber,
            },
            State::Operator => match k {
                Kind::Operator | Kind::Sign => State::Operator,
                _ => State::TerminalOperator,
            },
            State::Sign => match k {
                Kind::Digit => State::Number,
                Kind::Operator | Kind::Sign => State::Operator,
                _ => State::TerminalOperator,
            },
            State::Space => match k {
                Kind::Hash => State::Comment,
                Kind::LF | Kind::Space => State::Space,
                _ => State::TerminalSpace,
            },
            State::Symbol => match k {
                Kind::Digit | Kind::Letter | Kind::Underscore => State::Symbol,
                _ => State::TerminalSymbol,
            },
            _ => s,
        }
    }
}

/// The state in which the machine stops, and where, when it starts in state
/// `s` at position `j` of `buf`: it reads bytes until one takes it into a
/// state that ends a token, which it does not read past, or until the bytes
/// are at an end.
pub open spec fn run(buf: Seq<u8>, j: int, s: State) -> (State, int)
    decreases buf.len() - j,
{
    if j < 0 || j >= buf.len() {
        (s, j)
    } else {
        let next = State::spec_jump(s, Kind::spec_classify(buf[j]));
        if next.spec_is_terminal() {
            (next, j)
        } else {
            run(buf, j + 1, next)
        }
    }
}

/// The token that an operator spells.
pub open spec fn operator_token(w: Seq<u8>) -> Token {
    if w == seq![61u8] {
        // =
        Token::Assign
    } else if w == seq![61u8, 61u8] {
        // ==
        Token::EQ
    } else if w == seq![33u8, 61u8] {
        // !=
        Token::NE
    } else if w == seq![62u8] {
        // >
        Token::GT
    } else if w == seq![62u8, 61u8] {
        // >=
        Token::GE
    } else if w == seq![60u8] {
        // <
        Token::LT
    } else if w == seq![60u8, 61u8] {
        // <=
        Token::LE
    } else if w == seq![38u8] {
        // &
        Token::Ampersand
    } else if w == seq![64u8] {
        // @
        Token::At
    } else if w == seq![33u8] {
        // !
        Token::Bang
    } else if w == seq![94u8] {
        // ^
        Token::Caret
    } else if w == seq![36u8] {
        // $
        Token::Dollar
    } else if w == seq![45u8] {
        // -
        Token::Minus
    } else if w == seq![37u8] {
        // %
        Token::Percent
    } else if w == seq![124u8] {
        // |
        Token::Pipe
    } else if w == seq![43u8] {
        // +
        Token::Plus
    } else if w == seq![63u8] {
        // ?
        Token::Query
    } else if w == seq![47u8] {
        // /
        Token::Slash
    } else if w == seq![42u8] {
        // *
        Token::Star
    } else if w == seq![126u8] {
        // ~
        Token::Tilde
    } else {
        Token::Error
    }
}

/// The token that a word spells: a keyword, or else a symbol.
pub open spec fn word_token(w: Seq<u8>) -> Token {
    if w == seq![97u8, 110u8, 100u8] {
        // and
        Token::And
    } else if w == seq![98u8, 114u8, 101u8, 97u8, 107u8] {
        // break
        Token::Break
    } else if w == seq![100u8, 111u8] {
        // do
        Token::Do
    } else if w == seq![101u8, 108u8, 105u8, 102u8] {
        // elif
        Token::Elif
    } else if w == seq![101u8, 108u8, 115u8, 101u8] {
        // else
        Token::Else
    } else if w == seq![101u8, 110u8, 100u8] {
        // end
        Token::End
    } else if w == seq![102u8, 111u8, 114u8] {
        // for
        Token::For
    } else if w == seq![102u8, 117u8, 110u8] {
        // fun
        Token::Fun
    } else if w == seq![105u8, 102u8] {
        // if
        Token::If
    } else if w == seq![108u8, 101u8, 116u8] {
        // let
        Token::Let
    } else if w == seq![108u8, 111u8, 111u8, 112u8] {
        // loop
        Token::Loop
    } else if w == seq![111u8, 114u8] {
        // or
        Token::Or
    } else if w == seq![114u8, 101u8, 116u8, 117u8, 114u8, 110u8] {
        // return
        Token::Return
    } else if w == seq![116u8, 104u8, 101u8, 110u8] {
        // then
        Token::Then
    } else if w == seq![119u8, 104u8, 105u8, 108u8, 101u8] {
        // while
        Token::While
    } else {
        Token::Symbol
    }
}

/// The token that a punctuation byte is.
pub open spec fn punctuation_token(c: u8) -> Token {
    if c == 58 {
        // :
        Token::Colon
    } else if c == 44 {
        // ,
        Token::Comma
    } else if c == 123 {
        // {
        Token::LBrace
    } else if c == 91 {
        // [
        Token::LBracket
    } else if c == 40 {
        // (
        Token::LParen
    } else if c == 125 {
        // }
        Token::RBrace
    } else if c == 93 {
        // ]
        Token::RBracket
    } else if c == 41 {
        // )
        Token::RParen
    } else if c == 59 {
        // ;
        Token::Semi
    } else {
        Token::Error
    }
}

/// The token that begins at position `i` of `buf`, and where it ends.
pub open spec fn lex(buf: Seq<u8>, i: int) -> (Token, int) {
    let (s, j) = run(buf, i, State::Start);
    match s {
        State::Start => (Token::EOF, j),
        State::Comment | State::Space | State::TerminalSpace => (Token::Space, j),
        State::Dot | State::TerminalDot => (
            if j - i == 1 {
                Token::Dot
            } else if j - i == 2 {
                Token::DotDot
            } else if j - i == 3 {
                Token::DotDotDot
            } else {
                Token::Error
            },
            j,
        ),
        State::Number | State::TerminalNumber => (Token::Number, j),
        State::Operator | State::Sign | State::TerminalOperator => (
            operator_token(buf.subrange(i, j)),
            j,
        ),
        State::Symbol | State::TerminalSymbol => (word_token(buf.subrange(i, j)), j),
        State::TerminalPunctuation => (punctuation_token(buf[j]), j + 1),
        State::TerminalUnknownCharacter => (Token::Error, j + 1),
    }
}

/// The machine stops within the bytes, not before where it started. It
/// stops before the end exactly where a byte ends the token.
pub proof fn lemma_run_bounds(buf: Seq<u8>, j: int, s: State)
    requires
        0 <= j <= buf.len(),
        !s.spec_is_terminal(),
    ensures
        j <= run(buf, j, s).1 <= buf.len(),
        run(buf, j, s).0.spec_is_terminal() ==> run(buf, j, s).1 < buf.len(),
        !run(buf, j, s).0.spec_is_terminal() ==> run(buf, j, s).1 == buf.len(),
    decreases buf.len() - j,
{
    if j < buf.len() {
        let next = State::spec_jump(s, Kind::spec_classify(buf[j]));
        if !next.spec_is_terminal() {
            lemma_run_bounds(buf, j + 1, next);
        }
    }
}

/// No state but the first leads back to the first, so the machine is in the
/// first state only where it has read nothing.
pub proof fn lemma_run_leaves_start(buf: Seq<u8>, j: int, s: State)
    requires
        0 <= j <= buf.len(),
        s != State::Start,
    ensures
        run(buf, j, s).0 != State::Start,
    decreases buf.len() - j,
{
    if j < buf.len() {
        let next = State::spec_jump(s, Kind::spec_classify(buf[j]));
        if !next.spec_is_terminal() {
            lemma_run_leaves_start(buf, j + 1, next);
        }
    }
}

/// Every token but the end of the input takes at least one byte, and every
/// token ends within the input.
pub proof fn lemma_lex_advances(buf: Seq<u8>, i: int)
    requires
        0 <= i <= buf.len(),
    ensures
        i <= lex(buf, i).1 <= buf.len(),
        i < buf.len() ==> i < lex(buf, i).1 && lex(buf, i).0 != Token::EOF,
        i == buf.len() ==> lex(buf, i) == (Token::EOF, i),
{
    lemma_run_bounds(buf, i, State::Start);
    if i < buf.len() {
        let next = State::spec_jump(State::Start, Kind::spec_classify(buf[i]));
        if !next.spec_is_terminal() {
            lemma_run_bounds(buf, i + 1, next);
            lemma_run_leaves_start(buf, i + 1, next);
        }
    }
}

/// Whether two byte strings are the same.
fn same(a: &[u8], b: &[u8]) -> (r: bool)
    ensures
        r == (a@ == b@),
{
    if a.len() != b.len() {
        return false;
    }
    let n = a.len();
    let mut i: usize = 0;
    while i < n
        invariant
            n == a@.len(),
            n == b@.len(),
            i <= n,
            forall|k: int| 0 <= k < i ==> a@[k] == b@[k],
        decreases n - i,
    {
        if a[i] != b[i] {
            return false;
        }
        i += 1;
    }
    assert(a@ =~= b@);
    true
}

/// The token that an operator spells.
fn operator(w: &[u8]) -> (r: Token)
    ensures
        r == operator_token(w@),
{
    // =
    let lit = [61u8];
    assert(lit@ =~= seq![61u8]);
    if same(w, lit.as_slice()) {
        return Token::Assign;
    }
    // ==
    let lit = [61u8, 61u8];
    assert(lit@ =~= seq![61u8, 61u8]);
    if same(w, lit.as_slice()) {
        return Token::EQ;
    }
    // !=
    let lit = [33u8, 61u8];
    assert(lit@ =~= seq![33u8, 61u8]);
    if same(w, lit.as_slice()) {
        return Token::NE;
    }
    // >
    let lit = [62u8];
    assert(lit@ =~= seq![62u8]);
    if same(w, lit.as_slice()) {
        return Token::GT;
    }
    // >=
    let lit = [62u8, 61u8];
    assert(lit@ =~= seq![62u8, 61u8]);
    if same(w, lit.as_slice()) {
        return Token::GE;
    }
    // <
    let lit = [60u8];
    assert(lit@ =~= seq![60u8]);
    if same(w, lit.as_slice()) {
        return Token::LT;
    }
    // <=
    let lit = [60u8, 61u8];
    assert(lit@ =~= seq![60u8, 61u8]);
    if same(w, lit.as_slice()) {
        return Token::LE;
    }
    // &
    let lit = [38u8];
    assert(lit@ =~= seq![38u8]);
    if same(w, lit.as_slice()) {
        return Token::Ampersand;
    }
    // @
    let lit = [64u8];
    assert(lit@ =~= seq![64u8]);
    if same(w, lit.as_slice()) {
        return Token::At;
    }
    // !
    let lit = [33u8];
    assert(lit@ =~= seq![33u8]);
    if same(w, lit.as_slice()) {
        return Token::Bang;
    }
    // ^
    let lit = [94u8];
    assert(lit@ =~= seq![94u8]);
    if same(w, lit.as_slice()) {
        return Token::Caret;
    }
    // $
    let lit = [36u8];
    assert(lit@ =~= seq![36u8]);
    if same(w, lit.as_slice()) {
        return Token::Dollar;
    }
    // -
    let lit = [45u8];
    assert(lit@ =~= seq![45u8]);
    if same(w, lit.as_slice()) {
        return Token::Minus;
    }
    // %
    let lit = [37u8];
    assert(lit@ =~= seq![37u8]);
    if same(w, lit.as_slice()) {
        return Token::Percent;
    }
    // |
    let lit = [124u8];
    assert(lit@ =~= seq![124u8]);
    if same(w, lit.as_slice()) {
        return Token::Pipe;
    }
    // +
    let lit = [43u8];
    assert(lit@ =~= seq![43u8]);
    if same(w, lit.as_slice()) {
        return Token::Plus;
    }
    // ?
    let lit = [63u8];
    assert(lit@ =~= seq![63u8]);
    if same(w, lit.as_slice()) {
        return Token::Query;
    }
    // /
    let lit = [47u8];
    assert(lit@ =~= seq![47u8]);
    if same(w, lit.as_slice()) {
        return Token::Slash;
    }
    // *
    let lit = [42u8];
    assert(lit@ =~= seq![42u8]);
    if same(w, lit.as_slice()) {
        return Token::Star;
    }
    // ~
    let lit = [126u8];
    assert(lit@ =~= seq![126u8]);
    if same(w, lit.as_slice()) {
        return Token::Tilde;
    }
    Token::Error
}

/// The token that a word spells.
fn word(w: &[u8]) -> (r: Token)
    ensures
        r == word_token(w@),
{
    // and
    let lit = [97u8, 110u8, 100u8];
    assert(lit@ =~= seq![97u8, 110u8, 100u8]);
    if same(w, lit.as_slice()) {
        return Token::And;
    }
    // break
    let lit = [98u8, 114u8, 101u8, 97u8, 107u8];
    assert(lit@ =~= seq![98u8, 114u8, 101u8, 97u8, 107u8]);
    if same(w, lit.as_slice()) {
        return Token::Break;
    }
    // do
    let lit = [100u8, 111u8];
    assert(lit@ =~= seq![100u8, 111u8]);
    if same(w, lit.as_slice()) {
        return Token::Do;
    }
    // elif
    let lit = [101u8, 108u8, 105u8, 102u8];
    assert(lit@ =~= seq![101u8, 108u8, 105u8, 102u8]);
    if same(w, lit.as_slice()) {
        return Token::Elif;
    }
    // else
    let lit = [101u8, 108u8, 115u8, 101u8];
    assert(lit@ =~= seq![101u8, 108u8, 115u8, 101u8]);
    if same(w, lit.as_slice()) {
        return Token::Else;
    }
    // end
    let lit = [101u8, 110u8, 100u8];
    assert(lit@ =~= seq![101u8, 110u8, 100u8]);
    if same(w, lit.as_slice()) {
        return Token::End;
    }
    // for
    let lit = [102u8, 111u8, 114u8];
    assert(lit@ =~= seq![102u8, 111u8, 114u8]);
    if same(w, lit.as_slice()) {
        return Token::For;
    }
    // fun
    let lit = [102u8, 117u8, 110u8];
    assert(lit@ =~= seq![102u8, 117u8, 110u8]);
    if same(w, lit.as_slice()) {
        return Token::Fun;
    }
    // if
    let lit = [105u8, 102u8];
    assert(lit@ =~= seq![105u8, 102u8]);
    if same(w, lit.as_slice()) {
        return Token::If;
    }
    // let
    let lit = [108u8, 101u8, 116u8];
    assert(lit@ =~= seq![108u8, 101u8, 116u8]);
    if same(w, lit.as_slice()) {
        return Token::Let;
    }
    // loop
    let lit = [108u8, 111u8, 111u8, 112u8];
    assert(lit@ =~= seq![108u8, 111u8, 111u8, 112u8]);
    if same(w, lit.as_slice()) {
        return Token::Loop;
    }
    // or
    let lit = [111u8, 114u8];
    assert(lit@ =~= seq![111u8, 114u8]);
    if same(w, lit.as_slice()) {
        return Token::Or;
    }
    // return
    let lit = [114u8, 101u8, 116u8, 117u8, 114u8, 110u8];
    assert(lit@ =~= seq![114u8, 101u8, 116u8, 117u8, 114u8, 110u8]);
    if same(w, lit.as_slice()) {
        return Token::Return;
    }
    // then
    let lit = [116u8, 104u8, 101u8, 110u8];
    assert(lit@ =~= seq![116u8, 104u8, 101u8, 110u8]);
    if same(w, lit.as_slice()) {
        return Token::Then;
    }
    // while
    let lit = [119u8, 104u8, 105u8, 108u8, 101u8];
    assert(lit@ =~= seq![119u8, 104u8, 105u8, 108u8, 101u8]);
    if same(w, lit.as_slice()) {
        return Token::While;
    }
    Token::Symbol
}

/// The token that a punctuation byte is.
fn punctuation(c: u8) -> (r: Token)
    ensures
        r == punctuation_token(c),
{
    if c == 58 {
        // :
        Token::Colon
    } else if c == 44 {
        // ,
        Token::Comma
    } else if c == 123 {
        // {
        Token::LBrace
    } else if c == 91 {
        // [
        Token::LBracket
    } else if c == 40 {
        // (
        Token::LParen
    } else if c == 125 {
        // }
        Token::RBrace
    } else if c == 93 {
        // ]
        Token::RBracket
    } else if c == 41 {
        // )
        Token::RParen
    } else if c == 59 {
        // ;
        Token::Semi
    } else {
        Token::Error
    }
}

/// A lexer over a borrowed source. It remembers where the last token began
/// and where it ended; the next token begins where the last one ended.
pub struct Lexer<'a> {
    buf: &'a [u8],
    start: usize,
    stop: usize,
}

impl<'a> Lexer<'a> {
    #[verifier::type_invariant]
    spec fn in_bounds(self) -> bool {
        self.start <= self.stop <= self.buf@.len()
    }

    /// The source.
    pub closed spec fn source(self) -> Seq<u8> {
        self.buf@
    }

    /// Where the last token began.
    pub closed spec fn spec_start(self) -> int {
        self.start as int
    }

    /// Where the last token ended, which is where the next one begins.
    pub closed spec fn spec_stop(self) -> int {
        self.stop as int
    }

    pub fn new(buf: &'a [u8]) -> (r: Self)
        ensures
            r.source() == buf@,
            r.spec_start() == 0,
            r.spec_stop() == 0,
    {
        Lexer { buf, start: 0, stop: 0 }
    }

    /// Reads the next token. At the end of the source every token is
    /// `Token::EOF`.
    pub fn next(&mut self) -> (r: Token)
        ensures
            final(self).source() == old(self).source(),
            final(self).spec_start() == old(self).spec_stop(),
            (r, final(self).spec_stop()) == lex(old(self).source(), old(self).spec_stop()),
            old(self).spec_stop() <= final(self).spec_stop() <= final(self).source().len(),
    {
        proof {
            use_type_invariant(&*self);
            lemma_lex_advances(self.buf@, self.stop as int);
        }
        let buf = self.buf;
        let i = self.stop;
        let mut j = i;
        let mut c: u8 = 0;
        let mut s = State::Start;
        let n = buf.len();
        while j != n
            invariant_except_break
                !s.spec_is_terminal(),
            invariant
                n == buf@.len(),
                i <= j <= n,
                run(buf@, i as int, State::Start) == run(buf@, j as int, s) || (s.spec_is_terminal()
                    && run(buf@, i as int, State::Start) == (s, j as int) && c == buf@[j as int]
                    && j < n),
            ensures
                run(buf@, i as int, State::Start) == (s, j as int),
                s.spec_is_terminal() ==> j < n && c == buf@[j as int],
            decreases n - j,
        {
            c = buf[j];
            let k = Kind::classify(c);
            s = State::jump(s, k);
            if s.is_terminal() {
                break ;
            }
            j += 1;
        }
        let token = match s {
            State::Start => Token::EOF,
            State::Comment | State::Space | State::TerminalSpace => Token::Space,
            State::Dot | State::TerminalDot => {
                let d = j - i;
                if d == 1 {
                    Token::Dot
                } else if d == 2 {
                    Token::DotDot
                } else if d == 3 {
                    Token::DotDotDot
                } else {
                    Token::Error
                }
            },
            State::Number | State::TerminalNumber => Token::Number,
            State::Operator | State::Sign | State::TerminalOperator => operator(
                slice_subrange(buf, i, j),
            ),
            State::Symbol | State::TerminalSymbol => word(slice_subrange(buf, i, j)),
            State::TerminalPunctuation => {
                j += 1;
                punctuation(c)
            },
            State::TerminalUnknownCharacter => {
                j += 1;
                Token::Error
            },
        };
        self.start = i;
        self.stop = j;
        token
    }

    /// The bytes of the last token.
    pub fn span(&self) -> (r: &'a [u8])
        ensures
            r@ == self.source().subrange(self.spec_start(), self.spec_stop()),
    {
        proof {
            use_type_invariant(self);
        }
        slice_subrange(self.buf, self.start, self.stop)
    }
}

} // verus!
