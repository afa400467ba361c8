use bytecode_backend::frontend_ast::{
    sexp_head_and_body, sexp_list, AstBreak, AstExpr, AstNumber, AstOp, AstOpCall, AstStmt,
    AstSymbol,
};
use bytecode_backend::frontend_parser::{ParseError, Parser};
use bytecode_backend::sexp::{Sexp, ToSexp};

fn expr(source: &str) -> Result<String, ParseError> {
    Parser::new(source.as_bytes()).parse_expr().map(|e| e.to_sexp().to_text())
}

fn stmt(source: &str) -> Result<String, ParseError> {
    Parser::new(source.as_bytes()).parse_stmt().map(|e| e.to_sexp().to_text())
}

fn item(source: &str) -> Result<String, ParseError> {
    Parser::new(source.as_bytes()).parse_item().map(|e| e.to_sexp().to_text())
}

fn show(source: &str) -> String {
    expr(source).unwrap()
}

#[test]
fn a_function_definition_is_parsed_and_shown() {
    assert_eq!(item("fun foo(n)\n  n\nend").unwrap(), "(fundef foo (n) (exprseq n))");
    assert_eq!(item("fun f() end").unwrap(), "(fundef f ())");
    let source = "fun f(a, b)\n  let x, y = a + 1, b\n  if x < y then\n    return x\n  else\n    break\n  end\n  loop x end\n  g(x)(y)\nend";
    assert_eq!(
        item(source).unwrap(),
        "(fundef f (a b) (let x y = (+ a 1) b) (exprseq (if (< x y) (then (return x)) (else (break)))) (exprseq (loop (exprseq x))) (exprseq ((g x) y)))"
    );
}

#[test]
fn operators_bind_by_level_and_to_the_left() {
    assert_eq!(show("1 + 2 * 3"), "(+ 1 (* 2 3))");
    assert_eq!(show("1 * 2 + 3"), "(+ (* 1 2) 3)");
    assert_eq!(show("a - b - c"), "(- (- a b) c)");
    assert_eq!(show("a / b * c"), "(* (/ a b) c)");
    assert_eq!(show("a < b == c"), "(== (< a b) c)");
    assert_eq!(show("a + b >= c * d"), "(>= (+ a b) (* c d))");
    assert_eq!(show("a != b"), "(!= a b)");
    assert_eq!(show("a <= b"), "(<= a b)");
    assert_eq!(show("a > b"), "(> a b)");
    assert_eq!(show("(a + b) * c"), "(* (+ a b) c)");
    assert_eq!(show("! -x"), "(! (-/neg x))");
    // operators that stand together are read as one, which none is
    assert!(expr("!-x").is_err());
    assert_eq!(show("- x * y"), "(* (-/neg x) y)");
    assert_eq!(show("x"), "x");
    assert_eq!(show("12.5"), "12.5");
    assert_eq!(show("((x))"), "x");
}

#[test]
fn calls_take_their_arguments_without_space() {
    assert_eq!(show("f()"), "(f)");
    assert_eq!(show("f(1)"), "(f 1)");
    assert_eq!(show("f(1, g(2), 3)"), "(f 1 (g 2) 3)");
    assert_eq!(show("f(1)(2)"), "((f 1) 2)");
    assert_eq!(show("(f)(x)"), "(f x)");
    assert_eq!(show("f( a + b )"), "(f (+ a b))");
    // with space between, the parentheses are not arguments
    let mut p = Parser::new(b"f (x)");
    assert_eq!(p.parse_expr().unwrap().to_sexp().to_text(), "f");
    assert_eq!(p.parse_expr().unwrap().to_sexp().to_text(), "x");
    assert!(expr("f(1,)").is_err());
    assert!(expr("f(1 2)").is_err());
    assert!(expr("f(").is_err());
}

#[test]
fn conditions_and_loops() {
    assert_eq!(show("if a then b end"), "(if a (then (exprseq b)) (else))");
    assert_eq!(show("if a then b else c end"), "(if a (then (exprseq b)) (else (exprseq c)))");
    assert_eq!(show("if a then else end"), "(if a (then) (else))");
    assert_eq!(show("loop end"), "(loop)");
    assert_eq!(show("loop break 1, 2 end"), "(loop (break 1 2))");
    assert_eq!(show("loop a b end"), "(loop (exprseq a) (exprseq b))");
    assert_eq!(
        show("if a then if b then c end end (1)"),
        "(if a (then (exprseq (if b (then (exprseq c)) (else)))) (else))"
    );
    assert!(expr("if a b end").is_err());
    assert!(expr("if a then b").is_err());
    assert!(expr("if a then b elif c end").is_err());
    assert!(expr("loop a").is_err());
}

#[test]
fn statements() {
    assert_eq!(stmt("break end").unwrap(), "(break)");
    assert_eq!(stmt("break 1, x end").unwrap(), "(break 1 x)");
    assert_eq!(stmt("return else").unwrap(), "(return)");
    assert_eq!(stmt("return a + b end").unwrap(), "(return (+ a b))");
    assert_eq!(stmt("let x = 1").unwrap(), "(let x = 1)");
    assert_eq!(stmt("let x, y = f(1), 2").unwrap(), "(let x y = (f 1) 2)");
    assert_eq!(stmt("a, b").unwrap(), "(exprseq a b)");
    assert!(stmt("let = 1").is_err());
    assert!(stmt("let x 1").is_err());
    assert!(stmt("let x =").is_err());
    assert!(stmt("let x, = 1").is_err());
    assert!(stmt("break").is_err());
    assert!(stmt("").is_err());
}

#[test]
fn what_cannot_be_parsed_is_an_error() {
    assert_eq!(expr(""), Err(ParseError));
    assert_eq!(expr(")"), Err(ParseError));
    assert_eq!(expr("(a"), Err(ParseError));
    assert_eq!(expr("a +"), Err(ParseError));
    assert_eq!(expr("*a"), Err(ParseError));
    assert_eq!(expr("!"), Err(ParseError));
    assert_eq!(expr("\u{7f}"), Err(ParseError));
    assert_eq!(item(""), Err(ParseError));
    assert_eq!(item("foo"), Err(ParseError));
    assert_eq!(item("fun"), Err(ParseError));
    assert_eq!(item("fun 1()"), Err(ParseError));
    assert_eq!(item("fun f"), Err(ParseError));
    assert_eq!(item("fun f(a b) end"), Err(ParseError));
    assert_eq!(item("fun f(a,) end"), Err(ParseError));
    assert_eq!(item("fun f() x"), Err(ParseError));
    assert_eq!(item("fun f() else"), Err(ParseError));
}

#[test]
fn parsing_goes_on_where_it_stopped() {
    let mut p = Parser::new(b"fun a() end fun b(x) x end");
    assert_eq!(p.parse_item().unwrap().to_sexp().to_text(), "(fundef a ())");
    assert_eq!(p.parse_fundef().unwrap().to_sexp().to_text(), "(fundef b (x) (exprseq x))");
    assert!(p.parse_item().is_err());
    let mut p = Parser::new(b"a, b = c end");
    let names = p.parse_symbol_nonempty_seq().unwrap();
    assert_eq!(names.len(), 2);
    assert_eq!(names[1].0, "b");
    assert!(p.parse_symbol().is_err());
    let mut p = Parser::new(b"x y, z w end");
    assert_eq!(p.parse_symbol().unwrap().0, "x");
    assert_eq!(p.parse_expr_nonempty_seq().unwrap().len(), 2);
    assert_eq!(p.parse_stmt_seq().unwrap().len(), 1);
    assert_eq!(p.parse_stmt_seq().unwrap().len(), 0);
    let mut p = Parser::new(b"a * b + c < d");
    assert_eq!(p.parse_expr_p().unwrap().to_sexp().to_text(), "a");
    let mut p = Parser::new(b"a * b + c < d");
    assert_eq!(p.parse_expr_m().unwrap().to_sexp().to_text(), "(* a b)");
    let mut p = Parser::new(b"a * b + c < d");
    assert_eq!(p.parse_expr_a().unwrap().to_sexp().to_text(), "(+ (* a b) c)");
    let mut p = Parser::new(b"a * b + c < d");
    assert_eq!(p.parse_expr_c().unwrap().to_sexp().to_text(), "(< (+ (* a b) c) d)");
    let mut p = Parser::new(b"a(1) (2)");
    assert_eq!(p.parse_expr_t().unwrap().to_sexp().to_text(), "(a 1)");
}

#[test]
fn symbolic_expressions_are_written_with_single_spaces() {
    assert_eq!(Sexp::from_atom("x").to_text(), "x");
    assert_eq!(Sexp::List(vec![]).to_text(), "()");
    assert_eq!(Sexp::List(vec![Sexp::from_atom("a")]).to_text(), "(a)");
    let nested = Sexp::List(vec![
        Sexp::from_atom("a"),
        Sexp::List(vec![Sexp::from_atom("b"), Sexp::List(vec![])]),
        Sexp::from_atom("c"),
    ]);
    assert_eq!(nested.to_text(), "(a (b ()) c)");
    let mut out = String::from(">");
    nested.write_to(&mut out);
    assert_eq!(out, ">(a (b ()) c)");
}

#[test]
fn trees_are_shown_by_hand_too() {
    let names = vec![AstSymbol("p".to_string()), AstSymbol("q".to_string())];
    assert_eq!(sexp_list(&names).to_text(), "(p q)");
    assert_eq!(sexp_head_and_body(Sexp::from_atom("h"), &names).to_text(), "(h p q)");
    assert_eq!(sexp_list::<AstSymbol>(&[]).to_text(), "()");
    let call = AstExpr::OpCall2(Box::new(AstOpCall::<2>(
        AstOp::Xor,
        vec![
            AstExpr::Number(Box::new(AstNumber("1".to_string()))),
            AstExpr::OpCall1(Box::new(AstOpCall::<1>(
                AstOp::Not,
                vec![AstExpr::Symbol(Box::new(AstSymbol("x".to_string())))],
            ))),
        ],
    )));
    assert_eq!(call.to_sexp().to_text(), "(^ 1 (! x))");
    let stmt = AstStmt::Break(Box::new(AstBreak(vec![call])));
    assert_eq!(stmt.to_sexp().to_text(), "(break (^ 1 (! x)))");
    assert_eq!(AstOp::Add.to_name(), "+");
    assert_eq!(AstOp::And.to_name(), "&");
    assert_eq!(AstOp::Or.to_name(), "|");
    assert_eq!(AstOp::Neg.to_name(), "-/neg");
    assert_eq!(AstOp::Sub.to_name(), "-");
    assert_eq!(AstOp::GE.to_name(), ">=");
}
