//! The syntax trees of the surface language, and how they are shown as
//! symbolic expressions.

use vstd::prelude::*;
use crate::sexp::{lemma_trees, lemma_trees_push, trees, Sexp, ToSexp, Tree};

verus! {

/// An item of a source file.
#[derive(Debug)]
pub enum AstItem {
    FunDef(Box<AstFunDef>),
}

/// A statement.
#[derive(Debug)]
pub enum AstStmt {
    Break(Box<AstBreak>),
    ExprSeq(Box<AstExprSeq>),
    Let(Box<AstLet>),
    Return(Box<AstReturn>),
}

/// An expression.
#[derive(Debug)]
pub enum AstExpr {
    FunCall(Box<AstFunCall>),
    If(Box<AstIf>),
    Loop(Box<AstLoop>),
    Number(Box<AstNumber>),
    OpCall1(Box<AstOpCall<1>>),
    OpCall2(Box<AstOpCall<2>>),
    Symbol(Box<AstSymbol>),
}

/// An operator.
#[derive(Clone, Copy, Debug, PartialEq, Eq, Structural)]
pub enum AstOp {
    Add,
    And,
    Div,
    Mul,
    Neg,
    Not,
    Or,
    Sub,
    Xor,
    EQ,
    NE,
    GT,
    GE,
    LT,
    LE,
}

/// A function definition: its name, its parameters and its body.
#[derive(Debug)]
pub struct AstFunDef {
    pub name: AstSymbol,
    pub params: Vec<AstSymbol>,
    pub body: Vec<AstStmt>,
}

/// `break` with the values that the loop gives.
#[derive(Debug)]
pub struct AstBreak(pub Vec<AstExpr>);

/// Expressions evaluated in order.
#[derive(Debug)]
pub struct AstExprSeq(pub Vec<AstExpr>);

/// `let` with the names bound and the expressions that give their values.
#[derive(Debug)]
pub struct AstLet(pub Vec<AstSymbol>, pub Vec<AstExpr>);

/// `return` with the values returned.
#[derive(Debug)]
pub struct AstReturn(pub Vec<AstExpr>);

/// A call: what is called, and the arguments.
#[derive(Debug)]
pub struct AstFunCall(pub AstExpr, pub Vec<AstExpr>);

/// `if` with its condition and its two branches.
#[derive(Debug)]
pub struct AstIf(pub AstExpr, pub Vec<AstStmt>, pub Vec<AstStmt>);

/// `loop` with its body.
#[derive(Debug)]
pub struct AstLoop(pub Vec<AstStmt>);

/// A number, as it is written.
#[derive(Debug)]
pub struct AstNumber(pub String);

/// An operator applied to `N` operands.
#[derive(Debug)]
pub struct AstOpCall<const N: usize>(pub AstOp, pub Vec<AstExpr>);

/// A name.
#[derive(Debug)]
pub struct AstSymbol(pub String);

/// The name under which an operator is shown.
pub open spec fn op_name(op: AstOp) -> Seq<char> {
    match op {
        AstOp::Add => "+"@,
        AstOp::And => "&"@,
        AstOp::Div => "/"@,
        AstOp::Mul => "*"@,
        AstOp::Neg => "-/neg"@,
        AstOp::Not => "!"@,
        AstOp::Or => "|"@,
        AstOp::Sub => "-"@,
        AstOp::Xor => "^"@,
        AstOp::EQ => "=="@,
        AstOp::NE => "!="@,
        AstOp::GT => ">"@,
        AstOp::GE => ">="@,
        AstOp::LT => "<"@,
        AstOp::LE => "<="@,
    }
}

/// The trees of the expressions of `list` from position `i` on.
pub open spec fn expr_trees(list: Seq<AstExpr>, i: int) -> Seq<Tree>
    decreases list, list.len() - i,
{
    if i < 0 || i >= list.len() {
        Seq::empty()
    } else {
        seq![list[i].tree()] + expr_trees(list, i + 1)
    }
}

/// The trees of the statements of `list` from position `i` on.
pub open spec fn stmt_trees(list: Seq<AstStmt>, i: int) -> Seq<Tree>
    decreases list, list.len() - i,
{
    if i < 0 || i >= list.len() {
        Seq::empty()
    } else {
        seq![list[i].tree()] + stmt_trees(list, i + 1)
    }
}

/// The trees of the names of `list`.
pub open spec fn symbol_trees(list: Seq<AstSymbol>) -> Seq<Tree> {
    Seq::new(list.len(), |i: int| list[i].tree())
}

impl AstSymbol {
    /// A name is shown as an atom.
    pub open spec fn tree(self) -> Tree {
        Tree::Atom(self.0@)
    }
}

impl AstNumber {
    /// A number is shown as an atom.
    pub open spec fn tree(self) -> Tree {
        Tree::Atom(self.0@)
    }
}

impl AstItem {
    pub open spec fn tree(self) -> Tree
        decreases self,
    {
        match self {
            AstItem::FunDef(x) => x.tree(),
        }
    }
}

impl AstStmt {
    pub open spec fn tree(self) -> Tree
        decreases self,
    {
        match self {
            AstStmt::Break(x) => x.tree(),
            AstStmt::ExprSeq(x) => x.tree(),
            AstStmt::Let(x) => x.tree(),
            AstStmt::Return(x) => x.tree(),
        }
    }
}

impl AstExpr {
    pub open spec fn tree(self) -> Tree
        decreases self,
    {
        match self {
            AstExpr::FunCall(x) => x.tree(),
            AstExpr::If(x) => x.tree(),
            AstExpr::Loop(x) => x.tree(),
            AstExpr::Number(x) => x.tree(),
            AstExpr::OpCall1(x) => x.tree(),
            AstExpr::OpCall2(x) => x.tree(),
            AstExpr::Symbol(x) => x.tree(),
        }
    }
}

impl AstFunDef {
    /// `(fundef name (params...) body...)`
    pub open spec fn tree(self) -> Tree
        decreases self,
    {
        Tree::List(
            seq![
                Tree::Atom("fundef"@),
                self.name.tree(),
                Tree::List(symbol_trees(self.params@)),
            ] + stmt_trees(self.body@, 0),
        )
    }
}

impl AstBreak {
    /// `(break values...)`
    pub open spec fn tree(self) -> Tree
        decreases self,
    {
        Tree::List(seq![Tree::Atom("break"@)] + expr_trees(self.0@, 0))
    }
}

impl AstExprSeq {
    /// `(exprseq expressions...)`
    pub open spec fn tree(self) -> Tree
        decreases self,
    {
        Tree::List(seq![Tree::Atom("exprseq"@)] + expr_trees(self.0@, 0))
    }
}

impl AstLet {
    /// `(let names... = expressions...)`
    pub open spec fn tree(self) -> Tree
        decreases self,
    {
        Tree::List(
            seq![Tree::Atom("let"@)] + symbol_trees(self.0@) + seq![Tree::Atom("="@)] + expr_trees(
                self.1@,
                0,
            ),
        )
    }
}

impl AstReturn {
    /// `(return values...)`
    pub open spec fn tree(self) -> Tree
        decreases self,
    {
        Tree::List(seq![Tree::Atom("return"@)] + expr_trees(self.0@, 0))
    }
}

impl AstFunCall {
    /// `(callee arguments...)`
    pub open spec fn tree(self) -> Tree
        decreases self,
    {
        Tree::List(seq![self.0.tree()] + expr_trees(self.1@, 0))
    }
}

impl AstIf {
    /// `(if condition (then statements...) (else statements...))`
    pub open spec fn tree(self) -> Tree
        decreases self,
    {
        Tree::List(
            seq![
                Tree::Atom("if"@),
                self.0.tree(),
                Tree::List(seq![Tree::Atom("then"@)] + stmt_trees(self.1@, 0)),
                Tree::List(seq![Tree::Atom("else"@)] + stmt_trees(self.2@, 0)),
            ],
        )
    }
}

impl AstLoop {
    /// `(loop statements...)`
    pub open spec fn tree(self) -> Tree
        decreases self,
    {
        Tree::List(seq![Tree::Atom("loop"@)] + stmt_trees(self.0@, 0))
    }
}

impl<const N: usize> AstOpCall<N> {
    /// `(operator operands...)`
    pub open spec fn tree(self) -> Tree
        decreases self,
    {
        Tree::List(seq![Tree::Atom(op_name(self.0))] + expr_trees(self.1@, 0))
    }
}

/// The trees of a list of expressions are those of its items, in order.
pub proof fn lemma_expr_trees(list: Seq<AstExpr>, i: int)
    requires
        0 <= i <= list.len(),
    ensures
        expr_trees(list, i).len() == list.len() - i,
        forall|k: int| 0 <= k < list.len() - i ==> expr_trees(list, i)[k] == list[i + k].tree(),
    decreases list.len() - i,
{
    if i < list.len() {
        lemma_expr_trees(list, i + 1);
        assert forall|k: int| 0 <= k < list.len() - i implies expr_trees(list, i)[k] == list[i
            + k].tree() by {
            if k > 0 {
                assert(expr_trees(list, i + 1)[k - 1] == list[i + 1 + (k - 1)].tree());
            }
        }
    }
}

/// The trees of a list of statements are those of its items, in order.
pub proof fn lemma_stmt_trees(list: Seq<AstStmt>, i: int)
    requires
        0 <= i <= list.len(),
    ensures
        stmt_trees(list, i).len() == list.len() - i,
        forall|k: int| 0 <= k < list.len() - i ==> stmt_trees(list, i)[k] == list[i + k].tree(),
    decreases list.len() - i,
{
    if i < list.len() {
        lemma_stmt_trees(list, i + 1);
        assert forall|k: int| 0 <= k < list.len() - i implies stmt_trees(list, i)[k] == list[i
            + k].tree() by {
            if k > 0 {
                assert(stmt_trees(list, i + 1)[k - 1] == list[i + 1 + (k - 1)].tree());
            }
        }
    }
}

/// The trees of a list of expressions with one more item are the trees of
/// the list and the tree of the item.
pub proof fn lemma_expr_trees_push(list: Seq<AstExpr>, x: AstExpr)
    ensures
        expr_trees(list.push(x), 0) == expr_trees(list, 0).push(x.tree()),
{
    lemma_expr_trees(list, 0);
    lemma_expr_trees(list.push(x), 0);
    assert(expr_trees(list.push(x), 0) =~= expr_trees(list, 0).push(x.tree()));
}

/// The trees of a list of statements with one more item are the trees of
/// the list and the tree of the item.
pub proof fn lemma_stmt_trees_push(list: Seq<AstStmt>, x: AstStmt)
    ensures
        stmt_trees(list.push(x), 0) == stmt_trees(list, 0).push(x.tree()),
{
    lemma_stmt_trees(list, 0);
    lemma_stmt_trees(list.push(x), 0);
    assert(stmt_trees(list.push(x), 0) =~= stmt_trees(list, 0).push(x.tree()));
}

/// Shows each item of a list.
pub fn sexp_list<T: ToSexp>(list: &[T]) -> (r: Sexp)
    ensures
        r.tree() == Tree::List(Seq::new(list@.len(), |i: int| list@[i].shown())),
{
    let mut a: Vec<Sexp> = Vec::new();
    let n = list.len();
    let mut i: usize = 0;
    assert(trees(a@, 0) =~= Seq::new(0, |k: int| list@[k].shown()));
    while i < n
        invariant
            n == list@.len(),
            i <= n,
            trees(a@, 0) == Seq::new(i as nat, |k: int| list@[k].shown()),
        decreases n - i,
    {
        let ghost before = a@;
        let x = list[i].to_sexp();
        a.push(x);
        proof {
            lemma_trees_push(before, x);
            assert(trees(a@, 0) =~= Seq::new((i + 1) as nat, |k: int| list@[k].shown()));
        }
        i += 1;
    }
    Sexp::List(a)
}

/// Shows a head followed by each item of a body.
pub fn sexp_head_and_body<T: ToSexp>(head: Sexp, body: &[T]) -> (r: Sexp)
    ensures
        r.tree() == Tree::List(
            seq![head.tree()] + Seq::new(body@.len(), |i: int| body@[i].shown()),
        ),
{
    let ghost h = head.tree();
    let mut a: Vec<Sexp> = Vec::new();
    a.push(head);
    let n = body.len();
    let mut i: usize = 0;
    proof {
        lemma_trees(a@, 0);
        assert(trees(a@, 0) =~= seq![h] + Seq::new(0, |k: int| body@[k].shown()));
    }
    while i < n
        invariant
            n == body@.len(),
            i <= n,
            trees(a@, 0) == seq![h] + Seq::new(i as nat, |k: int| body@[k].shown()),
        decreases n - i,
    {
        let ghost before = a@;
        let x = body[i].to_sexp();
        a.push(x);
        proof {
            lemma_trees_push(before, x);
            assert(trees(a@, 0) =~= seq![h] + Seq::new((i + 1) as nat, |k: int| body@[k].shown()));
        }
        i += 1;
    }
    Sexp::List(a)
}

impl AstOp {
    /// The name under which the operator is shown.
    pub fn to_name(self) -> (r: &'static str)
        ensures
            r@ == op_name(self),
    {
        match self {
            AstOp::Add => "+",
            AstOp::And => "&",
            AstOp::Div => "/",
            AstOp::Mul => "*",
            AstOp::Neg => "-/neg",
            AstOp::Not => "!",
            AstOp::Or => "|",
            AstOp::Sub => "-",
            AstOp::Xor => "^",
            AstOp::EQ => "==",
            AstOp::NE => "!=",
            AstOp::GT => ">",
            AstOp::GE => ">=",
            AstOp::LT => "<",
            AstOp::LE => "<=",
        }
    }
}

impl ToSexp for AstSymbol {
    open spec fn shown(&self) -> Tree {
        self.tree()
    }

    fn to_sexp(&self) -> (r: Sexp) {
        Sexp::from_atom(self.0.as_str())
    }
}

impl ToSexp for AstNumber {
    open spec fn shown(&self) -> Tree {
        self.tree()
    }

    fn to_sexp(&self) -> (r: Sexp) {
        Sexp::from_atom(self.0.as_str())
    }
}

/// Appends what each expression of `list` is shown as.
fn push_exprs(out: &mut Vec<Sexp>, list: &Vec<AstExpr>)
    ensures
        trees(final(out)@, 0) == trees(old(out)@, 0) + expr_trees(list@, 0),
    decreases *list,
{
    let n = list.len();
    let mut i: usize = 0;
    proof {
        lemma_expr_trees(list@, 0);
        assert(trees(out@, 0) =~= trees(old(out)@, 0) + expr_trees(list@, 0).subrange(0, 0));
        assert forall|k: int| 0 <= k < n implies decreases_to!(*list => #[trigger] list@[k]) by {
            assert(decreases_to!(*list => list@));
            assert(decreases_to!(list@ => list@[k]));
        }
    }
    while i < n
        invariant
            n == list@.len(),
            i <= n,
            forall|k: int| 0 <= k < n ==> decreases_to!(*list => #[trigger] list@[k]),
            expr_trees(list@, 0).len() == n,
            forall|k: int| 0 <= k < n ==> expr_trees(list@, 0)[k] == list@[k].tree(),
            trees(out@, 0) == trees(old(out)@, 0) + expr_trees(list@, 0).subrange(0, i as int),
        decreases n - i,
    {
        let ghost before = out@;
        let x = list[i].sexp();
        out.push(x);
        proof {
            lemma_trees_push(before, x);
            assert(trees(out@, 0) =~= trees(old(out)@, 0) + expr_trees(list@, 0).subrange(
                0,
                i + 1,
            ));
        }
        i += 1;
    }
    assert(expr_trees(list@, 0).subrange(0, n as int) =~= expr_trees(list@, 0));
}

/// Appends what each statement of `list` is shown as.
fn push_stmts(out: &mut Vec<Sexp>, list: &Vec<AstStmt>)
    ensures
        trees(final(out)@, 0) == trees(old(out)@, 0) + stmt_trees(list@, 0),
    decreases *list,
{
    let n = list.len();
    let mut i: usize = 0;
    proof {
        lemma_stmt_trees(list@, 0);
        assert(trees(out@, 0) =~= trees(old(out)@, 0) + stmt_trees(list@, 0).subrange(0, 0));
        assert forall|k: int| 0 <= k < n implies decreases_to!(*list => #[trigger] list@[k]) by {
            assert(decreases_to!(*list => list@));
            assert(decreases_to!(list@ => list@[k]));
        }
    }
    while i < n
        invariant
            n == list@.len(),
            i <= n,
            forall|k: int| 0 <= k < n ==> decreases_to!(*list => #[trigger] list@[k]),
            stmt_trees(list@, 0).len() == n,
            forall|k: int| 0 <= k < n ==> stmt_trees(list@, 0)[k] == list@[k].tree(),
            trees(out@, 0) == trees(old(out)@, 0) + stmt_trees(list@, 0).subrange(0, i as int),
        decreases n - i,
    {
        let ghost before = out@;
        let x = list[i].sexp();
        out.push(x);
        proof {
            lemma_trees_push(before, x);
            assert(trees(out@, 0) =~= trees(old(out)@, 0) + stmt_trees(list@, 0).subrange(
                0,
                i + 1,
            ));
        }
        i += 1;
    }
    assert(stmt_trees(list@, 0).subrange(0, n as int) =~= stmt_trees(list@, 0));
}

/// Appends what each name of `list` is shown as.
fn push_symbols(out: &mut Vec<Sexp>, list: &Vec<AstSymbol>)
    ensures
        trees(final(out)@, 0) == trees(old(out)@, 0) + symbol_trees(list@),
{
    let n = list.len();
    let mut i: usize = 0;
    assert(trees(out@, 0) =~= trees(old(out)@, 0) + symbol_trees(list@).subrange(0, 0));
    while i < n
        invariant
            n == list@.len(),
            i <= n,
            trees(out@, 0) == trees(old(out)@, 0) + symbol_trees(list@).subrange(0, i as int),
        decreases n - i,
    {
        let ghost before = out@;
        let x = list[i].to_sexp();
        out.push(x);
        proof {
            lemma_trees_push(before, x);
            assert(trees(out@, 0) =~= trees(old(out)@, 0) + symbol_trees(list@).subrange(
                0,
                i + 1,
            ));
        }
        i += 1;
    }
    assert(symbol_trees(list@).subrange(0, n as int) =~= symbol_trees(list@));
}

/// A list that begins with the atom `head`.
fn headed(head: &str) -> (r: Vec<Sexp>)
    ensures
        trees(r@, 0) == seq![Tree::Atom(head@)],
{
    let mut a: Vec<Sexp> = Vec::new();
    a.push(Sexp::from_atom(head));
    proof {
        lemma_trees(a@, 0);
        assert(trees(a@, 0) =~= seq![Tree::Atom(head@)]);
    }
    a
}

impl AstItem {
    /// Shows the item.
    pub fn sexp(&self) -> (r: Sexp)
        ensures
            r.tree() == self.tree(),
        decreases *self,
    {
        match self {
            AstItem::FunDef(x) => x.sexp(),
        }
    }
}

impl AstStmt {
    /// Shows the statement.
    pub fn sexp(&self) -> (r: Sexp)
        ensures
            r.tree() == self.tree(),
        decreases *self,
    {
        match self {
            AstStmt::Break(x) => x.sexp(),
            AstStmt::ExprSeq(x) => x.sexp(),
            AstStmt::Let(x) => x.sexp(),
            AstStmt::Return(x) => x.sexp(),
        }
    }
}

impl AstExpr {
    /// Shows the expression.
    pub fn sexp(&self) -> (r: Sexp)
        ensures
            r.tree() == self.tree(),
        decreases *self,
    {
        match self {
            AstExpr::FunCall(x) => x.sexp(),
            AstExpr::If(x) => x.sexp(),
            AstExpr::Loop(x) => x.sexp(),
            AstExpr::Number(x) => x.to_sexp(),
            AstExpr::OpCall1(x) => x.sexp(),
            AstExpr::OpCall2(x) => x.sexp(),
            AstExpr::Symbol(x) => x.to_sexp(),
        }
    }
}

impl AstFunDef {
    /// Shows the definition.
    pub fn sexp(&self) -> (r: Sexp)
        ensures
            r.tree() == self.tree(),
        decreases *self,
    {
        let mut a = headed("fundef");
        let ghost a0 = a@;
        let name = self.name.to_sexp();
        a.push(name);
        let ghost a1 = a@;
        let mut params: Vec<Sexp> = Vec::new();
        assert(trees(params@, 0) =~= Seq::<Tree>::empty());
        push_symbols(&mut params, &self.params);
        let params = Sexp::List(params);
        a.push(params);
        let ghost a2 = a@;
        proof {
            lemma_trees_push(a0, name);
            lemma_trees_push(a1, params);
            assert(trees(a2, 0) =~= seq![
                Tree::Atom("fundef"@),
                self.name.tree(),
                Tree::List(symbol_trees(self.params@)),
            ]);
        }
        push_stmts(&mut a, &self.body);
        Sexp::List(a)
    }
}

impl AstBreak {
    /// Shows the statement.
    pub fn sexp(&self) -> (r: Sexp)
        ensures
            r.tree() == self.tree(),
        decreases *self,
    {
        let mut a = headed("break");
        push_exprs(&mut a, &self.0);
        Sexp::List(a)
    }
}

impl AstExprSeq {
    /// Shows the statement.
    pub fn sexp(&self) -> (r: Sexp)
        ensures
            r.tree() == self.tree(),
        decreases *self,
    {
        let mut a = headed("exprseq");
        push_exprs(&mut a, &self.0);
        Sexp::List(a)
    }
}

impl AstLet {
    /// Shows the statement.
    pub fn sexp(&self) -> (r: Sexp)
        ensures
            r.tree() == self.tree(),
        decreases *self,
    {
        let mut a = headed("let");
        push_symbols(&mut a, &self.0);
        let ghost a1 = a@;
        let eq = Sexp::from_atom("=");
        a.push(eq);
        proof {
            lemma_trees_push(a1, eq);
            assert(trees(a@, 0) =~= seq![Tree::Atom("let"@)] + symbol_trees(self.0@) + seq![
                Tree::Atom("="@),
            ]);
        }
        push_exprs(&mut a, &self.1);
        Sexp::List(a)
    }
}

impl AstReturn {
    /// Shows the statement.
    pub fn sexp(&self) -> (r: Sexp)
        ensures
            r.tree() == self.tree(),
        decreases *self,
    {
        let mut a = headed("return");
        push_exprs(&mut a, &self.0);
        Sexp::List(a)
    }
}

impl AstFunCall {
    /// Shows the call.
    pub fn sexp(&self) -> (r: Sexp)
        ensures
            r.tree() == self.tree(),
        decreases *self,
    {
        let mut a: Vec<Sexp> = Vec::new();
        let callee = self.0.sexp();
        a.push(callee);
        proof {
            lemma_trees(a@, 0);
            assert(trees(a@, 0) =~= seq![self.0.tree()]);
        }
        push_exprs(&mut a, &self.1);
        Sexp::List(a)
    }
}

impl AstIf {
    /// Shows the expression.
    pub fn sexp(&self) -> (r: Sexp)
        ensures
            r.tree() == self.tree(),
        decreases *self,
    {
        let mut a = headed("if");
        let ghost a0 = a@;
        let cond = self.0.sexp();
        a.push(cond);
        let ghost a1 = a@;
        let mut t = headed("then");
        push_stmts(&mut t, &self.1);
        let t = Sexp::List(t);
        a.push(t);
        let ghost a2 = a@;
        let mut e = headed("else");
        push_stmts(&mut e, &self.2);
        let e = Sexp::List(e);
        a.push(e);
        proof {
            lemma_trees_push(a0, cond);
            lemma_trees_push(a1, t);
            lemma_trees_push(a2, e);
            assert(trees(a@, 0) =~= seq![
                Tree::Atom("if"@),
                self.0.tree(),
                Tree::List(seq![Tree::Atom("then"@)] + stmt_trees(self.1@, 0)),
                Tree::List(seq![Tree::Atom("else"@)] + stmt_trees(self.2@, 0)),
            ]);
        }
        Sexp::List(a)
    }
}

impl AstLoop {
    /// Shows the expression.
    pub fn sexp(&self) -> (r: Sexp)
        ensures
            r.tree() == self.tree(),
        decreases *self,
    {
        let mut a = headed("loop");
        push_stmts(&mut a, &self.0);
        Sexp::List(a)
    }
}

impl<const N: usize> AstOpCall<N> {
    /// Shows the expression.
    pub fn sexp(&self) -> (r: Sexp)
        ensures
            r.tree() == self.tree(),
        decreases *self,
    {
        let mut a = headed(self.0.to_name());
        push_exprs(&mut a, &self.1);
        Sexp::List(a)
    }
}

impl ToSexp for AstItem {
    open spec fn shown(&self) -> Tree {
        self.tree()
    }

    fn to_sexp(&self) -> (r: Sexp) {
        self.sexp()
    }
}

impl ToSexp for AstStmt {
    open spec fn shown(&self) -> Tree {
        self.tree()
    }

    fn to_sexp(&self) -> (r: Sexp) {
        self.sexp()
    }
}

impl ToSexp for AstExpr {
    open spec fn shown(&self) -> Tree {
        self.tree()
    }

    fn to_sexp(&self) -> (r: Sexp) {
        self.sexp()
    }
}

impl ToSexp for AstFunDef {
    open spec fn shown(&self) -> Tree {
        self.tree()
    }

    fn to_sexp(&self) -> (r: Sexp) {
        self.sexp()
    }
}

impl ToSexp for AstBreak {
    open spec fn shown(&self) -> Tree {
        self.tree()
    }

    fn to_sexp(&self) -> (r: Sexp) {
        self.sexp()
    }
}

impl ToSexp for AstExprSeq {
    open spec fn shown(&self) -> Tree {
        self.tree()
    }

    fn to_sexp(&self) -> (r: Sexp) {
        self.sexp()
    }
}

impl ToSexp for AstLet {
    open spec fn shown(&self) -> Tree {
        self.tree()
    }

    fn to_sexp(&self) -> (r: Sexp) {
        self.sexp()
    }
}

impl ToSexp for AstReturn {
    open spec fn shown(&self) -> Tree {
        self.tree()
    }

    fn to_sexp(&self) -> (r: Sexp) {
        self.sexp()
    }
}

impl ToSexp for AstFunCall {
    open spec fn shown(&self) -> Tree {
        self.tree()
    }

    fn to_sexp(&self) -> (r: Sexp) {
        self.sexp()
    }
}

impl ToSexp for AstIf {
    open spec fn shown(&self) -> Tree {
        self.tree()
    }

    fn to_sexp(&self) -> (r: Sexp) {
        self.sexp()
    }
}

impl ToSexp for AstLoop {
    open spec fn shown(&self) -> Tree {
        self.tree()
    }

    fn to_sexp(&self) -> (r: Sexp) {
        self.sexp()
    }
}

impl<const N: usize> ToSexp for AstOpCall<N> {
    open spec fn shown(&self) -> Tree {
        self.tree()
    }

    fn to_sexp(&self) -> (r: Sexp) {
        self.sexp()
    }
}

} // verus!
