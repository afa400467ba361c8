//! The parser of the surface syntax: recursive descent over the tokens of
//! the lexer, with one function for each kind of phrase.
//!
//! What each function accepts, and the syntax tree it gives, is stated by a
//! function of the same name on the bytes of the source and a position in
//! them. A tree is stated as the symbolic expression that it is shown as.

use vstd::prelude::*;
use vstd::utf8::{decode_utf8, valid_utf8};
use crate::frontend_ast::{
    expr_trees, lemma_expr_trees, lemma_stmt_trees, op_name, stmt_trees, symbol_trees, AstBreak,
    AstExpr, AstExprSeq, AstFunCall, AstFunDef, AstIf, AstItem, AstLet, AstLoop, AstNumber, AstOp,
    AstOpCall, AstReturn, AstStmt, AstSymbol,
};
use crate::frontend_lexer::{lemma_lex_advances, lex, Lexer};
use crate::frontend_token::Token;
use crate::sexp::Tree;
use crate::slice_ext::utf8_text;

verus! {

/// A phrase could not be parsed.
#[derive(Clone, Copy, Debug, PartialEq, Eq, Structural)]
pub struct ParseError;

/// The token at position `i`.
pub open spec fn tok(buf: Seq<u8>, i: int) -> Token {
    lex(buf, i).0
}

/// The position behind the token at position `i`.
pub open spec fn fwd(buf: Seq<u8>, i: int) -> int {
    let j = lex(buf, i).1;
    if i <= j <= buf.len() {
        j
    } else {
        i
    }
}

/// The position behind the space at position `i`, if there is space there.
pub open spec fn skip(buf: Seq<u8>, i: int) -> int {
    if tok(buf, i) == Token::Space {
        fwd(buf, i)
    } else {
        i
    }
}

/// The position behind the token at position `i` and the space after it.
pub open spec fn bump(buf: Seq<u8>, i: int) -> int {
    skip(buf, fwd(buf, i))
}

/// The text of the token at position `i`, where it is text.
pub open spec fn word(buf: Seq<u8>, i: int) -> Option<Seq<char>> {
    let s = buf.subrange(i, fwd(buf, i));
    if valid_utf8(s) {
        Some(decode_utf8(s))
    } else {
        None
    }
}

/// Whether a token ends a sequence of statements.
pub open spec fn ends_block(t: Token) -> bool {
    t == Token::End || t == Token::Elif || t == Token::Else
}

/// A result whose position lies between `i` and the end of the source, or
/// nothing.
pub open spec fn within<T>(r: Option<(T, int)>, buf: Seq<u8>, i: int) -> Option<(T, int)> {
    match r {
        Some((x, j)) => if i <= j <= buf.len() {
            Some((x, j))
        } else {
            None
        },
        None => None,
    }
}

/// A result whose position lies behind `i` and not behind the end of the
/// source, or nothing.
pub open spec fn beyond<T>(r: Option<(T, int)>, buf: Seq<u8>, i: int) -> Option<(T, int)> {
    match r {
        Some((x, j)) => if i < j <= buf.len() {
            Some((x, j))
        } else {
            None
        },
        None => None,
    }
}

/// The tree of an operator applied to one operand.
pub open spec fn unary(op: AstOp, x: Tree) -> Tree {
    Tree::List(seq![Tree::Atom(op_name(op)), x])
}

/// The tree of an operator applied to two operands.
pub open spec fn binary(op: AstOp, x: Tree, y: Tree) -> Tree {
    Tree::List(seq![Tree::Atom(op_name(op)), x, y])
}

/// The tree of a list that begins with the atom `head`.
pub open spec fn headed(head: Seq<char>, body: Seq<Tree>) -> Tree {
    Tree::List(seq![Tree::Atom(head)] + body)
}

/// The operator of a comparison token.
pub open spec fn comparison(t: Token) -> Option<AstOp> {
    match t {
        Token::EQ => Some(AstOp::EQ),
        Token::NE => Some(AstOp::NE),
        Token::GT => Some(AstOp::GT),
        Token::GE => Some(AstOp::GE),
        Token::LT => Some(AstOp::LT),
        Token::LE => Some(AstOp::LE),
        _ => None,
    }
}

/// The operator of an additive token.
pub open spec fn additive(t: Token) -> Option<AstOp> {
    match t {
        Token::Minus => Some(AstOp::Sub),
        Token::Plus => Some(AstOp::Add),
        _ => None,
    }
}

/// The operator of a multiplicative token.
pub open spec fn multiplicative(t: Token) -> Option<AstOp> {
    match t {
        Token::Slash => Some(AstOp::Div),
        Token::Star => Some(AstOp::Mul),
        _ => None,
    }
}

/// The operator of a prefix token.
pub open spec fn prefix(t: Token) -> Option<AstOp> {
    match t {
        Token::Bang => Some(AstOp::Not),
        Token::Minus => Some(AstOp::Neg),
        _ => None,
    }
}

/// A name, with the space after it.
pub open spec fn symbol(buf: Seq<u8>, i: int) -> Option<(Tree, int)> {
    if tok(buf, i) == Token::Symbol {
        match word(buf, i) {
            Some(w) => Some((Tree::Atom(w), bump(buf, i))),
            None => None,
        }
    } else {
        None
    }
}

/// The names that follow the first of a list, each behind a comma.
pub open spec fn symbols_rest(buf: Seq<u8>, acc: Seq<Tree>, i: int) -> Option<(Seq<Tree>, int)>
    decreases buf.len() - i,
{
    if !(0 <= i <= buf.len()) {
        None
    } else if tok(buf, i) == Token::Comma {
        if bump(buf, i) <= i {
            None
        } else {
            match within(symbol(buf, bump(buf, i)), buf, bump(buf, i)) {
                Some((s, j)) => symbols_rest(buf, acc.push(s), j),
                None => None,
            }
        }
    } else {
        Some((acc, i))
    }
}

/// One or more names with commas between them.
pub open spec fn symbol_seq(buf: Seq<u8>, i: int) -> Option<(Seq<Tree>, int)> {
    match symbol(buf, i) {
        Some((s, j)) => symbols_rest(buf, seq![s], j),
        None => None,
    }
}

/// The parameters that follow the first, each behind a comma, up to the
/// closing parenthesis.
pub open spec fn params_rest(buf: Seq<u8>, acc: Seq<Tree>, i: int) -> Option<(Seq<Tree>, int)>
    decreases buf.len() - i,
{
    if !(0 <= i <= buf.len()) {
        None
    } else if tok(buf, i) == Token::RParen {
        Some((acc, i))
    } else if tok(buf, i) == Token::Comma {
        if bump(buf, i) <= i {
            None
        } else {
            match within(symbol(buf, bump(buf, i)), buf, bump(buf, i)) {
                Some((s, j)) => params_rest(buf, acc.push(s), j),
                None => None,
            }
        }
    } else {
        None
    }
}

/// The parameters of a function, up to the closing parenthesis.
pub open spec fn params(buf: Seq<u8>, i: int) -> Option<(Seq<Tree>, int)> {
    if tok(buf, i) == Token::RParen {
        Some((Seq::empty(), i))
    } else {
        match symbol(buf, i) {
            Some((s, j)) => params_rest(buf, seq![s], j),
            None => None,
        }
    }
}

/// Statements up to a token that ends the block.
pub open spec fn stmt_seq(buf: Seq<u8>, acc: Seq<Tree>, i: int) -> Option<(Seq<Tree>, int)>
    decreases buf.len() - i, 20int,
{
    if !(0 <= i <= buf.len()) {
        None
    } else if ends_block(tok(buf, i)) {
        Some((acc, i))
    } else {
        match beyond(stmt(buf, i), buf, i) {
            Some((s, j)) => stmt_seq(buf, acc.push(s), j),
            None => None,
        }
    }
}

/// The values of a `break` or a `return`: none before the end of the block,
/// else one or more expressions.
pub open spec fn values(buf: Seq<u8>, i: int) -> Option<(Seq<Tree>, int)>
    decreases buf.len() - i, 18int, 1int,
{
    if !(0 <= i <= buf.len()) {
        None
    } else if ends_block(tok(buf, i)) {
        Some((Seq::empty(), i))
    } else {
        expr_seq(buf, i)
    }
}

/// A statement: `break`, `let`, `return`, or expressions.
pub open spec fn stmt(buf: Seq<u8>, i: int) -> Option<(Tree, int)>
    decreases buf.len() - i, 19int,
{
    if !(0 <= i <= buf.len()) {
        None
    } else if tok(buf, i) == Token::Break {
        match values(buf, bump(buf, i)) {
            Some((xs, j)) => Some((headed("break"@, xs), j)),
            None => None,
        }
    } else if tok(buf, i) == Token::Let {
        match within(symbol_seq(buf, bump(buf, i)), buf, bump(buf, i)) {
            Some((xs, j)) => if tok(buf, j) == Token::Assign {
                match expr_seq(buf, bump(buf, j)) {
                    Some((ys, k)) => Some((headed("let"@, xs + seq![Tree::Atom("="@)] + ys), k)),
                    None => None,
                }
            } else {
                None
            },
            None => None,
        }
    } else if tok(buf, i) == Token::Return {
        match values(buf, bump(buf, i)) {
            Some((xs, j)) => Some((headed("return"@, xs), j)),
            None => None,
        }
    } else {
        match expr_seq(buf, i) {
            Some((xs, j)) => Some((headed("exprseq"@, xs), j)),
            None => None,
        }
    }
}

/// One or more expressions with commas between them.
pub open spec fn expr_seq(buf: Seq<u8>, i: int) -> Option<(Seq<Tree>, int)>
    decreases buf.len() - i, 18int, 0int,
{
    if !(0 <= i <= buf.len()) {
        None
    } else {
        match within(expr_c(buf, i), buf, i) {
            Some((e, j)) => expr_seq_rest(buf, seq![e], j),
            None => None,
        }
    }
}

/// The expressions that follow the first of a list, each behind a comma.
pub open spec fn expr_seq_rest(buf: Seq<u8>, acc: Seq<Tree>, i: int) -> Option<(Seq<Tree>, int)>
    decreases buf.len() - i, 17int,
{
    if !(0 <= i <= buf.len()) {
        None
    } else if tok(buf, i) == Token::Comma {
        if bump(buf, i) <= i {
            None
        } else {
            match within(expr_c(buf, bump(buf, i)), buf, bump(buf, i)) {
                Some((e, j)) => expr_seq_rest(buf, acc.push(e), j),
                None => None,
            }
        }
    } else {
        Some((acc, i))
    }
}

/// An expression: comparisons of sums.
pub open spec fn expr_c(buf: Seq<u8>, i: int) -> Option<(Tree, int)>
    decreases buf.len() - i, 16int,
{
    if !(0 <= i <= buf.len()) {
        None
    } else {
        match within(expr_a(buf, i), buf, i) {
            Some((e, j)) => c_rest(buf, e, j),
            None => None,
        }
    }
}

/// The comparisons that follow a sum. They associate to the left.
pub open spec fn c_rest(buf: Seq<u8>, e: Tree, i: int) -> Option<(Tree, int)>
    decreases buf.len() - i, 15int,
{
    if !(0 <= i <= buf.len()) {
        None
    } else {
        match comparison(tok(buf, i)) {
            Some(op) => if bump(buf, i) <= i {
                None
            } else {
                match within(expr_a(buf, bump(buf, i)), buf, bump(buf, i)) {
                    Some((x, j)) => c_rest(buf, binary(op, e, x), j),
                    None => None,
                }
            },
            None => Some((e, i)),
        }
    }
}

/// A sum of products.
pub open spec fn expr_a(buf: Seq<u8>, i: int) -> Option<(Tree, int)>
    decreases buf.len() - i, 14int,
{
    if !(0 <= i <= buf.len()) {
        None
    } else {
        match within(expr_m(buf, i), buf, i) {
            Some((e, j)) => a_rest(buf, e, j),
            None => None,
        }
    }
}

/// The additions and subtractions that follow a product. They associate to
/// the left.
pub open spec fn a_rest(buf: Seq<u8>, e: Tree, i: int) -> Option<(Tree, int)>
    decreases buf.len() - i, 13int,
{
    if !(0 <= i <= buf.len()) {
        None
    } else {
        match additive(tok(buf, i)) {
            Some(op) => if bump(buf, i) <= i {
                None
            } else {
                match within(expr_m(buf, bump(buf, i)), buf, bump(buf, i)) {
                    Some((x, j)) => a_rest(buf, binary(op, e, x), j),
                    None => None,
                }
            },
            None => Some((e, i)),
        }
    }
}

/// A product of prefix expressions.
pub open spec fn expr_m(buf: Seq<u8>, i: int) -> Option<(Tree, int)>
    decreases buf.len() - i, 12int,
{
    if !(0 <= i <= buf.len()) {
        None
    } else {
        match within(expr_p(buf, i), buf, i) {
            Some((e, j)) => m_rest(buf, e, j),
            None => None,
        }
    }
}

/// The multiplications and divisions that follow a prefix expression. They
/// associate to the left.
pub open spec fn m_rest(buf: Seq<u8>, e: Tree, i: int) -> Option<(Tree, int)>
    decreases buf.len() - i, 11int,
{
    if !(0 <= i <= buf.len()) {
        None
    } else {
        match multiplicative(tok(buf, i)) {
            Some(op) => if bump(buf, i) <= i {
                None
            } else {
                match within(expr_p(buf, bump(buf, i)), buf, bump(buf, i)) {
                    Some((x, j)) => m_rest(buf, binary(op, e, x), j),
                    None => None,
                }
            },
            None => Some((e, i)),
        }
    }
}

/// A prefix expression: a term behind any number of `!` and `-`.
pub open spec fn expr_p(buf: Seq<u8>, i: int) -> Option<(Tree, int)>
    decreases buf.len() - i, 10int,
{
    if !(0 <= i <= buf.len()) {
        None
    } else {
        match prefix(tok(buf, i)) {
            Some(op) => if bump(buf, i) <= i {
                None
            } else {
                match expr_p(buf, bump(buf, i)) {
                    Some((x, j)) => Some((unary(op, x), j)),
                    None => None,
                }
            },
            None => expr_t(buf, i),
        }
    }
}

/// A term followed by any number of argument lists, and the space after it.
pub open spec fn expr_t(buf: Seq<u8>, i: int) -> Option<(Tree, int)>
    decreases buf.len() - i, 9int,
{
    if !(0 <= i <= buf.len()) {
        None
    } else {
        match within(term(buf, i), buf, i) {
            Some((e, j)) => match call_rest(buf, e, j) {
                Some((e, k)) => Some((e, skip(buf, k))),
                None => None,
            },
            None => None,
        }
    }
}

/// A term: an expression in parentheses, a number, a name, an `if` or a
/// `loop`. No space is taken behind it, for no space may stand between a
/// function and its arguments.
pub open spec fn term(buf: Seq<u8>, i: int) -> Option<(Tree, int)>
    decreases buf.len() - i, 8int,
{
    if !(0 <= i < buf.len()) || bump(buf, i) <= i {
        None
    } else if tok(buf, i) == Token::LParen {
        match within(expr_c(buf, bump(buf, i)), buf, bump(buf, i)) {
            Some((x, j)) => if tok(buf, j) == Token::RParen {
                Some((x, fwd(buf, j)))
            } else {
                None
            },
            None => None,
        }
    } else if tok(buf, i) == Token::Number || tok(buf, i) == Token::Symbol {
        match word(buf, i) {
            Some(w) => Some((Tree::Atom(w), fwd(buf, i))),
            None => None,
        }
    } else if tok(buf, i) == Token::If {
        match within(expr_c(buf, bump(buf, i)), buf, bump(buf, i)) {
            Some((x, j)) => if tok(buf, j) == Token::Then {
                match within(stmt_seq(buf, Seq::empty(), bump(buf, j)), buf, bump(buf, j)) {
                    Some((y, k)) => match otherwise(buf, k) {
                        Some((z, m)) => if tok(buf, m) == Token::End {
                            Some(
                                (
                                    Tree::List(
                                        seq![
                                            Tree::Atom("if"@),
                                            x,
                                            headed("then"@, y),
                                            headed("else"@, z),
                                        ],
                                    ),
                                    fwd(buf, m),
                                ),
                            )
                        } else {
                            None
                        },
                        None => None,
                    },
                    None => None,
                }
            } else {
                None
            },
            None => None,
        }
    } else if tok(buf, i) == Token::Loop {
        match within(stmt_seq(buf, Seq::empty(), bump(buf, i)), buf, bump(buf, i)) {
            Some((x, j)) => if tok(buf, j) == Token::End {
                Some((headed("loop"@, x), fwd(buf, j)))
            } else {
                None
            },
            None => None,
        }
    } else {
        None
    }
}

/// The statements behind `else`, or none where there is no `else`. The
/// position `i` lies behind a token, so that what is called here is called
/// on less than the `if` was.
pub open spec fn otherwise(buf: Seq<u8>, i: int) -> Option<(Seq<Tree>, int)>
    decreases buf.len() - i, 21int,
{
    if !(0 <= i <= buf.len()) {
        None
    } else if tok(buf, i) == Token::Else {
        within(stmt_seq(buf, Seq::empty(), bump(buf, i)), buf, bump(buf, i))
    } else {
        Some((Seq::empty(), i))
    }
}

/// The argument lists that follow a term. Each makes a call of what stands
/// before it.
pub open spec fn call_rest(buf: Seq<u8>, e: Tree, i: int) -> Option<(Tree, int)>
    decreases buf.len() - i, 7int,
{
    if !(0 <= i <= buf.len()) {
        None
    } else if tok(buf, i) == Token::LParen {
        if bump(buf, i) <= i {
            None
        } else {
            match within(args(buf, bump(buf, i)), buf, bump(buf, i)) {
                Some((a, j)) => call_rest(buf, Tree::List(seq![e] + a), fwd(buf, j)),
                None => None,
            }
        }
    } else {
        Some((e, i))
    }
}

/// The arguments of a call, up to the closing parenthesis.
pub open spec fn args(buf: Seq<u8>, i: int) -> Option<(Seq<Tree>, int)>
    decreases buf.len() - i, 23int,
{
    if !(0 <= i <= buf.len()) {
        None
    } else if tok(buf, i) == Token::RParen {
        Some((Seq::empty(), i))
    } else {
        match within(expr_c(buf, i), buf, i) {
            Some((x, j)) => args_rest(buf, seq![x], j),
            None => None,
        }
    }
}

/// The arguments that follow the first, each behind a comma, up to the
/// closing parenthesis.
pub open spec fn args_rest(buf: Seq<u8>, acc: Seq<Tree>, i: int) -> Option<(Seq<Tree>, int)>
    decreases buf.len() - i, 22int,
{
    if !(0 <= i <= buf.len()) {
        None
    } else if tok(buf, i) == Token::RParen {
        Some((acc, i))
    } else if tok(buf, i) == Token::Comma {
        if bump(buf, i) <= i {
            None
        } else {
            match within(expr_c(buf, bump(buf, i)), buf, bump(buf, i)) {
                Some((x, j)) => args_rest(buf, acc.push(x), j),
                None => None,
            }
        }
    } else {
        None
    }
}

/// A function definition: `fun`, the name, the parameters in parentheses,
/// the body, `end`.
pub open spec fn fundef(buf: Seq<u8>, i: int) -> Option<(Tree, int)> {
    if tok(buf, i) == Token::Fun {
        match symbol(buf, bump(buf, i)) {
            Some((name, j)) => if tok(buf, j) == Token::LParen {
                match params(buf, bump(buf, j)) {
                    Some((ps, k)) => match stmt_seq(buf, Seq::empty(), bump(buf, k)) {
                        Some((body, m)) => if tok(buf, m) == Token::End {
                            Some(
                                (
                                    Tree::List(
                                        seq![Tree::Atom("fundef"@), name, Tree::List(ps)] + body,
                                    ),
                                    bump(buf, m),
                                ),
                            )
                        } else {
                            None
                        },
                        None => None,
                    },
                    None => None,
                }
            } else {
                None
            },
            None => None,
        }
    } else {
        None
    }
}

/// An item: a function definition.
pub open spec fn item(buf: Seq<u8>, i: int) -> Option<(Tree, int)> {
    if tok(buf, i) == Token::Fun {
        fundef(buf, i)
    } else {
        None
    }
}

/// Whether `r` is the expression that `want` asks for, reached at the
/// position that `want` asks for; or a failure where `want` is nothing.
pub open spec fn gives_expr(r: Result<AstExpr, ParseError>, pos: int, want: Option<(Tree, int)>) -> bool {
    match want {
        Some((t, j)) => r is Ok && r.unwrap().tree() == t && pos == j,
        None => r is Err,
    }
}

/// Whether `r` is the statement that `want` asks for.
pub open spec fn gives_stmt(r: Result<AstStmt, ParseError>, pos: int, want: Option<(Tree, int)>) -> bool {
    match want {
        Some((t, j)) => r is Ok && r.unwrap().tree() == t && pos == j,
        None => r is Err,
    }
}

/// Whether `r` is the name that `want` asks for.
pub open spec fn gives_symbol(r: Result<AstSymbol, ParseError>, pos: int, want: Option<(Tree, int)>) -> bool {
    match want {
        Some((t, j)) => r is Ok && r.unwrap().tree() == t && pos == j,
        None => r is Err,
    }
}

/// Whether `r` is the list of expressions that `want` asks for.
pub open spec fn gives_exprs(
    r: Result<Vec<AstExpr>, ParseError>,
    pos: int,
    want: Option<(Seq<Tree>, int)>,
) -> bool {
    match want {
        Some((t, j)) => r is Ok && expr_trees(r.unwrap()@, 0) == t && pos == j,
        None => r is Err,
    }
}

/// Whether `r` is the list of statements that `want` asks for.
pub open spec fn gives_stmts(
    r: Result<Vec<AstStmt>, ParseError>,
    pos: int,
    want: Option<(Seq<Tree>, int)>,
) -> bool {
    match want {
        Some((t, j)) => r is Ok && stmt_trees(r.unwrap()@, 0) == t && pos == j,
        None => r is Err,
    }
}

/// Whether `r` is the list of names that `want` asks for.
pub open spec fn gives_symbols(
    r: Result<Vec<AstSymbol>, ParseError>,
    pos: int,
    want: Option<(Seq<Tree>, int)>,
) -> bool {
    match want {
        Some((t, j)) => r is Ok && symbol_trees(r.unwrap()@) == t && pos == j,
        None => r is Err,
    }
}

/// The tree of a `let`, grouped as head and body.
proof fn lemma_let_tree(xs: Seq<Tree>, ys: Seq<Tree>)
    ensures
        Tree::List(seq![Tree::Atom("let"@)] + xs + seq![Tree::Atom("="@)] + ys) == headed(
            "let"@,
            xs + seq![Tree::Atom("="@)] + ys,
        ),
{
    assert(seq![Tree::Atom("let"@)] + xs + seq![Tree::Atom("="@)] + ys =~= seq![Tree::Atom("let"@)]
        + (xs + seq![Tree::Atom("="@)] + ys));
}

/// Whether a token ends a sequence of statements.
fn is_block_terminator(token: Token) -> (r: bool)
    ensures
        r == ends_block(token),
{
    match token {
        Token::End | Token::Elif | Token::Else => true,
        _ => false,
    }
}

/// The operator of a comparison token.
fn comparison_of(t: Token) -> (r: Option<AstOp>)
    ensures
        r == comparison(t),
{
    match t {
        Token::EQ => Some(AstOp::EQ),
        Token::NE => Some(AstOp::NE),
        Token::GT => Some(AstOp::GT),
        Token::GE => Some(AstOp::GE),
        Token::LT => Some(AstOp::LT),
        Token::LE => Some(AstOp::LE),
        _ => None,
    }
}

/// The operator of an additive token.
fn additive_of(t: Token) -> (r: Option<AstOp>)
    ensures
        r == additive(t),
{
    match t {
        Token::Minus => Some(AstOp::Sub),
        Token::Plus => Some(AstOp::Add),
        _ => None,
    }
}

/// The operator of a multiplicative token.
fn multiplicative_of(t: Token) -> (r: Option<AstOp>)
    ensures
        r == multiplicative(t),
{
    match t {
        Token::Slash => Some(AstOp::Div),
        Token::Star => Some(AstOp::Mul),
        _ => None,
    }
}

/// The operator of a prefix token.
fn prefix_of(t: Token) -> (r: Option<AstOp>)
    ensures
        r == prefix(t),
{
    match t {
        Token::Bang => Some(AstOp::Not),
        Token::Minus => Some(AstOp::Neg),
        _ => None,
    }
}

/// An operator applied to two operands.
fn binary_call(op: AstOp, x: AstExpr, y: AstExpr) -> (r: AstExpr)
    ensures
        r.tree() == binary(op, x.tree(), y.tree()),
{
    let mut v: Vec<AstExpr> = Vec::new();
    v.push(x);
    v.push(y);
    proof {
        lemma_expr_trees(v@, 0);
        assert(seq![Tree::Atom(op_name(op))] + expr_trees(v@, 0) =~= seq![
            Tree::Atom(op_name(op)),
            x.tree(),
            y.tree(),
        ]);
    }
    AstExpr::OpCall2(Box::new(AstOpCall(op, v)))
}

/// An operator applied to one operand.
fn unary_call(op: AstOp, x: AstExpr) -> (r: AstExpr)
    ensures
        r.tree() == unary(op, x.tree()),
{
    let mut v: Vec<AstExpr> = Vec::new();
    v.push(x);
    proof {
        lemma_expr_trees(v@, 0);
        assert(seq![Tree::Atom(op_name(op))] + expr_trees(v@, 0) =~= seq![
            Tree::Atom(op_name(op)),
            x.tree(),
        ]);
    }
    AstExpr::OpCall1(Box::new(AstOpCall(op, v)))
}

/// A parser over a borrowed source. It looks at one token at a time.
pub struct Parser<'a> {
    lexer: Lexer<'a>,
    token: Token,
}

impl<'a> Parser<'a> {
    /// The source.
    pub closed spec fn source(self) -> Seq<u8> {
        self.lexer.source()
    }

    /// Where the token begins that the parser looks at.
    pub closed spec fn pos(self) -> int {
        self.lexer.spec_start()
    }

    /// Whether the parser looks at the token of its position.
    pub closed spec fn wf(self) -> bool {
        &&& 0 <= self.lexer.spec_start() <= self.lexer.spec_stop() <= self.lexer.source().len()
        &&& (self.token, self.lexer.spec_stop()) == lex(
            self.lexer.source(),
            self.lexer.spec_start(),
        )
    }

    /// Whether `self` is the parser `before` further on in the same source.
    pub open spec fn follows(self, before: Parser<'a>) -> bool {
        &&& self.wf()
        &&& self.source() == before.source()
        &&& before.pos() <= self.pos() <= self.source().len()
    }

    /// The measure by which parsing ends: the bytes not yet parsed.
    pub open spec fn left(self) -> int {
        self.source().len() - self.pos()
    }

    pub fn new(buf: &'a [u8]) -> (r: Self)
        ensures
            r.wf(),
            r.source() == buf@,
            r.pos() == 0,
    {
        let mut lexer = Lexer::new(buf);
        let token = lexer.next();
        Parser { lexer, token }
    }

    /// Moves to the next token.
    fn advance(&mut self)
        requires
            old(self).wf(),
        ensures
            final(self).follows(*old(self)),
            final(self).pos() == fwd(old(self).source(), old(self).pos()),
            tok(old(self).source(), old(self).pos()) != Token::EOF ==> final(self).pos() > old(
                self,
            ).pos(),
    {
        proof {
            lemma_lex_advances(self.source(), self.pos());
        }
        self.token = self.lexer.next();
    }

    /// Moves over space, if the parser is at space.
    fn advance_over_space(&mut self)
        requires
            old(self).wf(),
        ensures
            final(self).follows(*old(self)),
            final(self).pos() == skip(old(self).source(), old(self).pos()),
    {
        if self.token == Token::Space {
            self.advance()
        }
    }

    /// Moves to the next token and over the space behind it.
    fn bump(&mut self)
        requires
            old(self).wf(),
        ensures
            final(self).follows(*old(self)),
            final(self).pos() == bump(old(self).source(), old(self).pos()),
            tok(old(self).source(), old(self).pos()) != Token::EOF ==> final(self).pos() > old(
                self,
            ).pos(),
    {
        self.advance();
        self.advance_over_space();
    }

    /// Fails.
    fn fail<T>(&self) -> (r: Result<T, ParseError>)
        ensures
            r is Err,
    {
        Err(ParseError)
    }

    /// Succeeds where the parser looks at `token`.
    fn expect(&self, token: Token) -> (r: Result<(), ParseError>)
        requires
            self.wf(),
        ensures
            r is Ok <==> tok(self.source(), self.pos()) == token,
    {
        if self.token == token {
            Ok(())
        } else {
            Err(ParseError)
        }
    }

    /// The bytes of the token that the parser looks at.
    fn span(&self) -> (r: &'a [u8])
        requires
            self.wf(),
        ensures
            r@ == self.source().subrange(self.pos(), fwd(self.source(), self.pos())),
    {
        self.lexer.span()
    }

    /// The text of the token that the parser looks at.
    fn text(&self) -> (r: Result<String, ParseError>)
        requires
            self.wf(),
        ensures
            match word(self.source(), self.pos()) {
                Some(w) => r is Ok && r.unwrap()@ == w,
                None => r is Err,
            },
    {
        match utf8_text(self.span()) {
            Some(s) => Ok(s.to_owned()),
            None => Err(ParseError),
        }
    }

    /// Parses a name and the space behind it.
    pub fn parse_symbol(&mut self) -> (r: Result<AstSymbol, ParseError>)
        requires
            old(self).wf(),
        ensures
            final(self).follows(*old(self)),
            gives_symbol(r, final(self).pos(), symbol(old(self).source(), old(self).pos())),
            r is Ok ==> final(self).pos() > old(self).pos(),
    {
        if self.token != Token::Symbol {
            return Err(ParseError);
        }
        let name = match self.text() {
            Ok(n) => n,
            Err(e) => {
                return Err(e);
            },
        };
        self.bump();
        Ok(AstSymbol(name))
    }

    /// Parses one or more names with commas between them.
    #[verifier::rlimit(50)]
    pub fn parse_symbol_nonempty_seq(&mut self) -> (r: Result<Vec<AstSymbol>, ParseError>)
        requires
            old(self).wf(),
        ensures
            final(self).follows(*old(self)),
            gives_symbols(r, final(self).pos(), symbol_seq(old(self).source(), old(self).pos())),
    {
        let mut a: Vec<AstSymbol> = Vec::new();
        let x = match self.parse_symbol() {
            Ok(x) => x,
            Err(e) => {
                return Err(e);
            },
        };
        a.push(x);
        assert(symbol_trees(a@) =~= seq![x.tree()]);
        while self.token == Token::Comma
            invariant
                self.follows(*old(self)),
                symbols_rest(self.source(), symbol_trees(a@), self.pos()) == symbol_seq(
                    old(self).source(),
                    old(self).pos(),
                ),
            decreases self.left(),
        {
            let ghost acc = symbol_trees(a@);
            self.bump();
            let x = match self.parse_symbol() {
                Ok(x) => x,
                Err(e) => {
                    return Err(e);
                },
            };
            a.push(x);
            assert(symbol_trees(a@) =~= acc.push(x.tree()));
        }
        Ok(a)
    }

    /// Parses the parameters of a function up to the closing parenthesis.
    #[verifier::rlimit(50)]
    fn parse_params(&mut self) -> (r: Result<Vec<AstSymbol>, ParseError>)
        requires
            old(self).wf(),
        ensures
            final(self).follows(*old(self)),
            gives_symbols(r, final(self).pos(), params(old(self).source(), old(self).pos())),
    {
        let mut a: Vec<AstSymbol> = Vec::new();
        assert(symbol_trees(a@) =~= Seq::<Tree>::empty());
        if self.token != Token::RParen {
            let x = match self.parse_symbol() {
                Ok(x) => x,
                Err(e) => {
                    return Err(e);
                },
            };
            a.push(x);
            assert(symbol_trees(a@) =~= seq![x.tree()]);
            while self.token != Token::RParen
                invariant
                    self.follows(*old(self)),
                    params_rest(self.source(), symbol_trees(a@), self.pos()) == params(
                        old(self).source(),
                        old(self).pos(),
                    ),
                decreases self.left(),
            {
                let ghost acc = symbol_trees(a@);
                match self.expect(Token::Comma) {
                    Ok(()) => {},
                    Err(e) => {
                        return Err(e);
                    },
                }
                self.bump();
                let x = match self.parse_symbol() {
                    Ok(x) => x,
                    Err(e) => {
                        return Err(e);
                    },
                };
                a.push(x);
                assert(symbol_trees(a@) =~= acc.push(x.tree()));
            }
        }
        Ok(a)
    }

    /// Parses an item.
    pub fn parse_item(&mut self) -> (r: Result<AstItem, ParseError>)
        requires
            old(self).wf(),
        ensures
            final(self).follows(*old(self)),
            match item(old(self).source(), old(self).pos()) {
                Some((t, j)) => r is Ok && r.unwrap().tree() == t && final(self).pos() == j,
                None => r is Err,
            },
    {
        match self.token {
            Token::Fun => {
                match self.parse_fundef() {
                    Ok(x) => Ok(AstItem::FunDef(Box::new(x))),
                    Err(e) => Err(e),
                }
            },
            _ => self.fail(),
        }
    }

    /// Parses a function definition.
    #[verifier::rlimit(50)]
    pub fn parse_fundef(&mut self) -> (r: Result<AstFunDef, ParseError>)
        requires
            old(self).wf(),
        ensures
            final(self).follows(*old(self)),
            match fundef(old(self).source(), old(self).pos()) {
                Some((t, j)) => r is Ok && r.unwrap().tree() == t && final(self).pos() == j,
                None => r is Err,
            },
    {
        match self.expect(Token::Fun) {
            Ok(()) => {},
            Err(e) => {
                return Err(e);
            },
        }
        self.bump();
        let name = match self.parse_symbol() {
            Ok(x) => x,
            Err(e) => {
                return Err(e);
            },
        };
        match self.expect(Token::LParen) {
            Ok(()) => {},
            Err(e) => {
                return Err(e);
            },
        }
        self.bump();
        let params = match self.parse_params() {
            Ok(x) => x,
            Err(e) => {
                return Err(e);
            },
        };
        self.bump();
        let body = match self.parse_stmt_seq() {
            Ok(x) => x,
            Err(e) => {
                return Err(e);
            },
        };
        match self.expect(Token::End) {
            Ok(()) => {},
            Err(e) => {
                return Err(e);
            },
        }
        self.bump();
        Ok(AstFunDef { name, params, body })
    }

    /// Parses statements up to a token that ends the block.
    #[verifier::rlimit(50)]
    pub fn parse_stmt_seq(&mut self) -> (r: Result<Vec<AstStmt>, ParseError>)
        requires
            old(self).wf(),
        ensures
            final(self).follows(*old(self)),
            gives_stmts(
                r,
                final(self).pos(),
                stmt_seq(old(self).source(), Seq::empty(), old(self).pos()),
            ),
        decreases old(self).left(), 20int,
    {
        let mut a: Vec<AstStmt> = Vec::new();
        proof {
            lemma_stmt_trees(a@, 0);
            assert(stmt_trees(a@, 0) =~= Seq::<Tree>::empty());
        }
        while !is_block_terminator(self.token)
            invariant
                self.follows(*old(self)),
                stmt_seq(self.source(), stmt_trees(a@, 0), self.pos()) == stmt_seq(
                    old(self).source(),
                    Seq::empty(),
                    old(self).pos(),
                ),
            decreases self.left(),
        {
            let ghost before = a@;
            let x = match self.parse_stmt() {
                Ok(x) => x,
                Err(e) => {
                    return Err(e);
                },
            };
            a.push(x);
            proof {
                crate::frontend_ast::lemma_stmt_trees_push(before, x);
            }
        }
        Ok(a)
    }

    /// Parses one or more expressions with commas between them.
    #[verifier::rlimit(50)]
    pub fn parse_expr_nonempty_seq(&mut self) -> (r: Result<Vec<AstExpr>, ParseError>)
        requires
            old(self).wf(),
        ensures
            final(self).follows(*old(self)),
            gives_exprs(r, final(self).pos(), expr_seq(old(self).source(), old(self).pos())),
            r is Ok ==> final(self).pos() > old(self).pos(),
        decreases old(self).left(), 18int, 0int,
    {
        let mut a: Vec<AstExpr> = Vec::new();
        let x = match self.parse_expr() {
            Ok(x) => x,
            Err(e) => {
                return Err(e);
            },
        };
        a.push(x);
        proof {
            lemma_expr_trees(a@, 0);
            assert(expr_trees(a@, 0) =~= seq![x.tree()]);
        }
        while self.token == Token::Comma
            invariant
                self.follows(*old(self)),
                self.pos() > old(self).pos(),
                expr_seq_rest(self.source(), expr_trees(a@, 0), self.pos()) == expr_seq(
                    old(self).source(),
                    old(self).pos(),
                ),
            decreases self.left(),
        {
            let ghost before = a@;
            self.bump();
            let x = match self.parse_expr() {
                Ok(x) => x,
                Err(e) => {
                    return Err(e);
                },
            };
            a.push(x);
            proof {
                crate::frontend_ast::lemma_expr_trees_push(before, x);
            }
        }
        Ok(a)
    }

    /// Parses the values of a `break` or a `return`.
    #[verifier::rlimit(50)]
    fn parse_values(&mut self) -> (r: Result<Vec<AstExpr>, ParseError>)
        requires
            old(self).wf(),
        ensures
            final(self).follows(*old(self)),
            gives_exprs(r, final(self).pos(), values(old(self).source(), old(self).pos())),
        decreases old(self).left(), 18int, 1int,
    {
        if is_block_terminator(self.token) {
            let a: Vec<AstExpr> = Vec::new();
            proof {
                lemma_expr_trees(a@, 0);
                assert(expr_trees(a@, 0) =~= Seq::<Tree>::empty());
            }
            Ok(a)
        } else {
            self.parse_expr_nonempty_seq()
        }
    }

    /// Parses a `break` statement.
    #[verifier::rlimit(50)]
    fn parse_break(&mut self) -> (r: Result<AstStmt, ParseError>)
        requires
            old(self).wf(),
            tok(old(self).source(), old(self).pos()) == Token::Break,
        ensures
            final(self).follows(*old(self)),
            gives_stmt(r, final(self).pos(), stmt(old(self).source(), old(self).pos())),
            r is Ok ==> final(self).pos() > old(self).pos(),
        decreases old(self).left(), 19int, 0int,
    {
        self.bump();
        match self.parse_values() {
            Ok(x) => Ok(AstStmt::Break(Box::new(AstBreak(x)))),
            Err(e) => Err(e),
        }
    }

    /// Parses a `return` statement.
    #[verifier::rlimit(50)]
    fn parse_return(&mut self) -> (r: Result<AstStmt, ParseError>)
        requires
            old(self).wf(),
            tok(old(self).source(), old(self).pos()) == Token::Return,
        ensures
            final(self).follows(*old(self)),
            gives_stmt(r, final(self).pos(), stmt(old(self).source(), old(self).pos())),
            r is Ok ==> final(self).pos() > old(self).pos(),
        decreases old(self).left(), 19int, 0int,
    {
        self.bump();
        match self.parse_values() {
            Ok(x) => Ok(AstStmt::Return(Box::new(AstReturn(x)))),
            Err(e) => Err(e),
        }
    }

    /// Parses a `let` statement.
    #[verifier::rlimit(50)]
    fn parse_let(&mut self) -> (r: Result<AstStmt, ParseError>)
        requires
            old(self).wf(),
            tok(old(self).source(), old(self).pos()) == Token::Let,
        ensures
            final(self).follows(*old(self)),
            gives_stmt(r, final(self).pos(), stmt(old(self).source(), old(self).pos())),
            r is Ok ==> final(self).pos() > old(self).pos(),
        decreases old(self).left(), 19int, 0int,
    {
        let ghost src = self.source();
        let ghost i = self.pos();
        proof {
            lemma_lex_advances(src, i);
        }
        self.bump();
        let ghost i1 = self.pos();
        let x = match self.parse_symbol_nonempty_seq() {
            Ok(x) => x,
            Err(e) => {
                assert(stmt(src, i) is None);
                return Err(e);
            },
        };
        let ghost j = self.pos();
        assert(within(symbol_seq(src, i1), src, i1) == Some((symbol_trees(x@), j)));
        match self.expect(Token::Assign) {
            Ok(()) => {},
            Err(e) => {
                assert(stmt(src, i) is None);
                return Err(e);
            },
        }
        self.bump();
        match self.parse_expr_nonempty_seq() {
            Ok(y) => {
                let r = AstStmt::Let(Box::new(AstLet(x, y)));
                proof {
                    lemma_let_tree(symbol_trees(x@), expr_trees(y@, 0));
                    assert(r.tree() == headed(
                        "let"@,
                        symbol_trees(x@) + seq![Tree::Atom("="@)] + expr_trees(y@, 0),
                    ));
                }
                Ok(r)
            },
            Err(e) => {
                assert(stmt(src, i) is None);
                Err(e)
            },
        }
    }

    /// Parses expressions that stand as a statement.
    #[verifier::rlimit(50)]
    fn parse_exprseq(&mut self) -> (r: Result<AstStmt, ParseError>)
        requires
            old(self).wf(),
            tok(old(self).source(), old(self).pos()) != Token::Break,
            tok(old(self).source(), old(self).pos()) != Token::Let,
            tok(old(self).source(), old(self).pos()) != Token::Return,
        ensures
            final(self).follows(*old(self)),
            gives_stmt(r, final(self).pos(), stmt(old(self).source(), old(self).pos())),
            r is Ok ==> final(self).pos() > old(self).pos(),
        decreases old(self).left(), 19int, 0int,
    {
        match self.parse_expr_nonempty_seq() {
            Ok(x) => Ok(AstStmt::ExprSeq(Box::new(AstExprSeq(x)))),
            Err(e) => Err(e),
        }
    }

    /// Parses a statement.
    #[verifier::rlimit(50)]
    pub fn parse_stmt(&mut self) -> (r: Result<AstStmt, ParseError>)
        requires
            old(self).wf(),
        ensures
            final(self).follows(*old(self)),
            gives_stmt(r, final(self).pos(), stmt(old(self).source(), old(self).pos())),
            r is Ok ==> final(self).pos() > old(self).pos(),
        decreases old(self).left(), 19int, 1int,
    {
        match self.token {
            Token::Break => self.parse_break(),
            Token::Let => self.parse_let(),
            Token::Return => self.parse_return(),
            _ => self.parse_exprseq(),
        }
    }

    /// Parses an expression.
    pub fn parse_expr(&mut self) -> (r: Result<AstExpr, ParseError>)
        requires
            old(self).wf(),
        ensures
            final(self).follows(*old(self)),
            gives_expr(r, final(self).pos(), expr_c(old(self).source(), old(self).pos())),
            r is Ok ==> final(self).pos() > old(self).pos(),
        decreases old(self).left(), 16int, 1int,
    {
        self.parse_expr_c()
    }

    /// Parses comparisons of sums.
    #[verifier::rlimit(50)]
    pub fn parse_expr_c(&mut self) -> (r: Result<AstExpr, ParseError>)
        requires
            old(self).wf(),
        ensures
            final(self).follows(*old(self)),
            gives_expr(r, final(self).pos(), expr_c(old(self).source(), old(self).pos())),
            r is Ok ==> final(self).pos() > old(self).pos(),
        decreases old(self).left(), 16int, 0int,
    {
        let mut e = match self.parse_expr_a() {
            Ok(x) => x,
            Err(e) => {
                return Err(e);
            },
        };
        let mut op = comparison_of(self.token);
        while op.is_some()
            invariant
                self.follows(*old(self)),
                self.pos() > old(self).pos(),
                op == comparison(tok(self.source(), self.pos())),
                c_rest(self.source(), e.tree(), self.pos()) == expr_c(
                    old(self).source(),
                    old(self).pos(),
                ),
            decreases self.left(),
        {
            self.bump();
            let x = match self.parse_expr_a() {
                Ok(x) => x,
                Err(e) => {
                    return Err(e);
                },
            };
            e = binary_call(op.unwrap(), e, x);
            op = comparison_of(self.token);
        }
        Ok(e)
    }

    /// Parses a sum of products.
    #[verifier::rlimit(50)]
    pub fn parse_expr_a(&mut self) -> (r: Result<AstExpr, ParseError>)
        requires
            old(self).wf(),
        ensures
            final(self).follows(*old(self)),
            gives_expr(r, final(self).pos(), expr_a(old(self).source(), old(self).pos())),
            r is Ok ==> final(self).pos() > old(self).pos(),
        decreases old(self).left(), 14int,
    {
        let mut e = match self.parse_expr_m() {
            Ok(x) => x,
            Err(e) => {
                return Err(e);
            },
        };
        let mut op = additive_of(self.token);
        while op.is_some()
            invariant
                self.follows(*old(self)),
                self.pos() > old(self).pos(),
                op == additive(tok(self.source(), self.pos())),
                a_rest(self.source(), e.tree(), self.pos()) == expr_a(
                    old(self).source(),
                    old(self).pos(),
                ),
            decreases self.left(),
        {
            self.bump();
            let x = match self.parse_expr_m() {
                Ok(x) => x,
                Err(e) => {
                    return Err(e);
                },
            };
            e = binary_call(op.unwrap(), e, x);
            op = additive_of(self.token);
        }
        Ok(e)
    }

    /// Parses a product of prefix expressions.
    #[verifier::rlimit(50)]
    pub fn parse_expr_m(&mut self) -> (r: Result<AstExpr, ParseError>)
        requires
            old(self).wf(),
        ensures
            final(self).follows(*old(self)),
            gives_expr(r, final(self).pos(), expr_m(old(self).source(), old(self).pos())),
            r is Ok ==> final(self).pos() > old(self).pos(),
        decreases old(self).left(), 12int,
    {
        let mut e = match self.parse_expr_p() {
            Ok(x) => x,
            Err(e) => {
                return Err(e);
            },
        };
        let mut op = multiplicative_of(self.token);
        while op.is_some()
            invariant
                self.follows(*old(self)),
                self.pos() > old(self).pos(),
                op == multiplicative(tok(self.source(), self.pos())),
                m_rest(self.source(), e.tree(), self.pos()) == expr_m(
                    old(self).source(),
                    old(self).pos(),
                ),
            decreases self.left(),
        {
            self.bump();
            let x = match self.parse_expr_p() {
                Ok(x) => x,
                Err(e) => {
                    return Err(e);
                },
            };
            e = binary_call(op.unwrap(), e, x);
            op = multiplicative_of(self.token);
        }
        Ok(e)
    }

    /// Parses a prefix expression.
    #[verifier::rlimit(50)]
    pub fn parse_expr_p(&mut self) -> (r: Result<AstExpr, ParseError>)
        requires
            old(self).wf(),
        ensures
            final(self).follows(*old(self)),
            gives_expr(r, final(self).pos(), expr_p(old(self).source(), old(self).pos())),
            r is Ok ==> final(self).pos() > old(self).pos(),
        decreases old(self).left(), 10int,
    {
        match prefix_of(self.token) {
            None => self.parse_expr_t(),
            Some(op) => {
                self.bump();
                match self.parse_expr_p() {
                    Ok(x) => Ok(unary_call(op, x)),
                    Err(e) => Err(e),
                }
            },
        }
    }

    /// Parses a term followed by any number of argument lists, and the space
    /// behind it.
    #[verifier::rlimit(50)]
    pub fn parse_expr_t(&mut self) -> (r: Result<AstExpr, ParseError>)
        requires
            old(self).wf(),
        ensures
            final(self).follows(*old(self)),
            gives_expr(r, final(self).pos(), expr_t(old(self).source(), old(self).pos())),
            r is Ok ==> final(self).pos() > old(self).pos(),
        decreases old(self).left(), 9int,
    {
        let mut e = match self.parse_term() {
            Ok(x) => x,
            Err(e) => {
                return Err(e);
            },
        };
        // No space is taken before here, for no space may stand between a
        // function and its arguments.

        while self.token == Token::LParen
            invariant
                self.follows(*old(self)),
                self.pos() > old(self).pos(),
                match call_rest(self.source(), e.tree(), self.pos()) {
                    Some((t, k)) => expr_t(old(self).source(), old(self).pos()) == Some(
                        (t, skip(self.source(), k)),
                    ),
                    None => expr_t(old(self).source(), old(self).pos()) is None,
                },
            decreases self.left(),
        {
            self.bump();
            let a = match self.parse_args() {
                Ok(x) => x,
                Err(e) => {
                    return Err(e);
                },
            };
            self.advance();
            e = AstExpr::FunCall(Box::new(AstFunCall(e, a)));
        }
        self.advance_over_space();
        Ok(e)
    }

    /// Parses an expression in parentheses.
    #[verifier::rlimit(50)]
    fn parse_paren(&mut self) -> (r: Result<AstExpr, ParseError>)
        requires
            old(self).wf(),
            tok(old(self).source(), old(self).pos()) == Token::LParen,
        ensures
            final(self).follows(*old(self)),
            gives_expr(r, final(self).pos(), term(old(self).source(), old(self).pos())),
            r is Ok ==> final(self).pos() > old(self).pos(),
        decreases old(self).left(), 8int, 0int,
    {
        proof {
            lemma_lex_advances(self.source(), self.pos());
        }
        self.bump();
        let x = match self.parse_expr() {
            Ok(x) => x,
            Err(e) => {
                return Err(e);
            },
        };
        match self.expect(Token::RParen) {
            Ok(()) => {},
            Err(e) => {
                return Err(e);
            },
        }
        self.advance();
        Ok(x)
    }

    /// Parses a number or a name.
    #[verifier::rlimit(50)]
    fn parse_atom(&mut self) -> (r: Result<AstExpr, ParseError>)
        requires
            old(self).wf(),
            tok(old(self).source(), old(self).pos()) == Token::Number || tok(
                old(self).source(),
                old(self).pos(),
            ) == Token::Symbol,
        ensures
            final(self).follows(*old(self)),
            gives_expr(r, final(self).pos(), term(old(self).source(), old(self).pos())),
            r is Ok ==> final(self).pos() > old(self).pos(),
    {
        proof {
            lemma_lex_advances(self.source(), self.pos());
        }
        let number = self.token == Token::Number;
        let x = match self.text() {
            Ok(x) => x,
            Err(e) => {
                return Err(e);
            },
        };
        self.advance();
        if number {
            Ok(AstExpr::Number(Box::new(AstNumber(x))))
        } else {
            Ok(AstExpr::Symbol(Box::new(AstSymbol(x))))
        }
    }

    /// Parses an `if` expression.
    #[verifier::rlimit(50)]
    fn parse_if(&mut self) -> (r: Result<AstExpr, ParseError>)
        requires
            old(self).wf(),
            tok(old(self).source(), old(self).pos()) == Token::If,
        ensures
            final(self).follows(*old(self)),
            gives_expr(r, final(self).pos(), term(old(self).source(), old(self).pos())),
            r is Ok ==> final(self).pos() > old(self).pos(),
        decreases old(self).left(), 8int, 0int,
    {
        proof {
            lemma_lex_advances(self.source(), self.pos());
        }
        self.bump();
        let x = match self.parse_expr() {
            Ok(x) => x,
            Err(e) => {
                return Err(e);
            },
        };
        match self.expect(Token::Then) {
            Ok(()) => {},
            Err(e) => {
                return Err(e);
            },
        }
        self.bump();
        let y = match self.parse_stmt_seq() {
            Ok(x) => x,
            Err(e) => {
                return Err(e);
            },
        };
        let z = match self.parse_otherwise() {
            Ok(x) => x,
            Err(e) => {
                return Err(e);
            },
        };
        match self.expect(Token::End) {
            Ok(()) => {},
            Err(e) => {
                return Err(e);
            },
        }
        self.advance();
        Ok(AstExpr::If(Box::new(AstIf(x, y, z))))
    }

    /// Parses a `loop` expression.
    #[verifier::rlimit(50)]
    fn parse_loop(&mut self) -> (r: Result<AstExpr, ParseError>)
        requires
            old(self).wf(),
            tok(old(self).source(), old(self).pos()) == Token::Loop,
        ensures
            final(self).follows(*old(self)),
            gives_expr(r, final(self).pos(), term(old(self).source(), old(self).pos())),
            r is Ok ==> final(self).pos() > old(self).pos(),
        decreases old(self).left(), 8int, 0int,
    {
        proof {
            lemma_lex_advances(self.source(), self.pos());
        }
        self.bump();
        let x = match self.parse_stmt_seq() {
            Ok(x) => x,
            Err(e) => {
                return Err(e);
            },
        };
        match self.expect(Token::End) {
            Ok(()) => {},
            Err(e) => {
                return Err(e);
            },
        }
        self.advance();
        Ok(AstExpr::Loop(Box::new(AstLoop(x))))
    }

    /// Parses a term.
    #[verifier::rlimit(50)]
    fn parse_term(&mut self) -> (r: Result<AstExpr, ParseError>)
        requires
            old(self).wf(),
        ensures
            final(self).follows(*old(self)),
            gives_expr(r, final(self).pos(), term(old(self).source(), old(self).pos())),
            r is Ok ==> final(self).pos() > old(self).pos(),
        decreases old(self).left(), 8int, 1int,
    {
        match self.token {
            Token::LParen => self.parse_paren(),
            Token::Number | Token::Symbol => self.parse_atom(),
            Token::If => self.parse_if(),
            Token::Loop => self.parse_loop(),
            _ => self.fail(),
        }
    }

    /// Parses the statements behind `else`, if there is an `else`.
    #[verifier::rlimit(50)]
    fn parse_otherwise(&mut self) -> (r: Result<Vec<AstStmt>, ParseError>)
        requires
            old(self).wf(),
        ensures
            final(self).follows(*old(self)),
            gives_stmts(r, final(self).pos(), otherwise(old(self).source(), old(self).pos())),
        decreases old(self).left(), 21int,
    {
        match self.token {
            Token::Else => {
                self.bump();
                self.parse_stmt_seq()
            },
            _ => {
                let a: Vec<AstStmt> = Vec::new();
                proof {
                    lemma_stmt_trees(a@, 0);
                    assert(stmt_trees(a@, 0) =~= Seq::<Tree>::empty());
                }
                Ok(a)
            },
        }
    }

    /// Parses the arguments of a call up to the closing parenthesis.
    #[verifier::rlimit(50)]
    fn parse_args(&mut self) -> (r: Result<Vec<AstExpr>, ParseError>)
        requires
            old(self).wf(),
        ensures
            final(self).follows(*old(self)),
            gives_exprs(r, final(self).pos(), args(old(self).source(), old(self).pos())),
        decreases old(self).left(), 23int,
    {
        let mut a: Vec<AstExpr> = Vec::new();
        proof {
            lemma_expr_trees(a@, 0);
            assert(expr_trees(a@, 0) =~= Seq::<Tree>::empty());
        }
        if self.token != Token::RParen {
            let x = match self.parse_expr() {
                Ok(x) => x,
                Err(e) => {
                    return Err(e);
                },
            };
            a.push(x);
            proof {
                lemma_expr_trees(a@, 0);
                assert(expr_trees(a@, 0) =~= seq![x.tree()]);
            }
            while self.token != Token::RParen
                invariant
                    self.follows(*old(self)),
                    self.pos() > old(self).pos(),
                    args_rest(self.source(), expr_trees(a@, 0), self.pos()) == args(
                        old(self).source(),
                        old(self).pos(),
                    ),
                decreases self.left(),
            {
                let ghost before = a@;
                match self.expect(Token::Comma) {
                    Ok(()) => {},
                    Err(e) => {
                        return Err(e);
                    },
                }
                self.bump();
                let x = match self.parse_expr() {
                    Ok(x) => x,
                    Err(e) => {
                        return Err(e);
                    },
                };
                a.push(x);
                proof {
                    crate::frontend_ast::lemma_expr_trees_push(before, x);
                }
            }
        }
        Ok(a)
    }
}

} // verus!
