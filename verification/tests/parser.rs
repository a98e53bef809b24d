use kaleidscope::ast::{Binary, Call, Expr, ExprAst, Extern, Func, Number, Op, Proto, Variable};
use kaleidscope::parser::{
    binary_expr, call_expr, expr, extern_, func, input, proto, InputAst,
};
use kaleidscope::token::ParseError;

fn var(name: &str) -> Expr {
    Variable::new(name.to_string()).into_expr()
}

fn num(literal: &str) -> Expr {
    Number::new(literal.to_string()).unwrap().into_expr()
}

fn bin(op: Op, lhs: Expr, rhs: Expr) -> Expr {
    Binary::new(op, lhs, rhs).into_expr()
}

fn call(callee: &str, args: Vec<Expr>) -> Expr {
    Call::new(callee.to_string(), args).into_expr()
}

fn prototype(name: &str, params: &[&str]) -> Proto {
    Proto::new(name.to_string(), params.iter().map(|p| p.to_string()).collect())
}

#[test]
fn parse_binary() {
    let src = "a + b + ( c + d ) * e * f + g";
    let (bin, remain) = binary_expr(src).unwrap();
    println!("bin = {:?}", bin);
    assert_eq!(remain, "");
}

#[test]
fn parse_proto() {
    let (proto, remain) = proto("f(a, b, c)").unwrap();
    let ans = Proto::new("f".into(), vec!["a".into(), "b".into(), "c".into()]);
    assert_eq!(proto, ans);
    assert_eq!(remain, "");
}

#[test]
fn parse_call() {
    let (call, remain) = call_expr("f(a, 1.0, b)").unwrap();
    println!("call = {:?}", call);
    assert_eq!(remain, "");
}

#[test]
fn parse_call2() {
    let (call, remain) = call_expr("f(a, f(b))").unwrap();
    println!("call = {:?}", call);
    println!("remain = {:?}", remain);
    assert_eq!(remain, "");
}

#[test]
fn parse_func() {
    let src = "def f(a, b) a";
    let (f, remain) = func(src).unwrap();
    println!("func = {:?}", f);
    assert_eq!(remain, "");
}

#[test]
fn parse_extern() {
    let src = "extern f(a, b) a";
    let (f, remain) = extern_(src).unwrap();
    println!("func = {:?}", f);
    // A declaration ends with its prototype: what follows is left over.
    assert_eq!(f, Extern::new(prototype("f", &["a", "b"])));
    assert_eq!(remain, "a");
}

#[test]
fn binary_groups_to_the_right() {
    let (parsed, remain) = expr("a - b - c").unwrap();
    assert_eq!(remain, "");
    assert_eq!(parsed, bin(Op::Sub, var("a"), bin(Op::Sub, var("b"), var("c"))));
    assert_ne!(parsed, bin(Op::Sub, bin(Op::Sub, var("a"), var("b")), var("c")));
}

#[test]
fn operators_have_one_precedence() {
    let (parsed, _) = expr("a * b + c").unwrap();
    assert_eq!(parsed, bin(Op::Mul, var("a"), bin(Op::Add, var("b"), var("c"))));
    let (parsed, _) = expr("a + b * c").unwrap();
    assert_eq!(parsed, bin(Op::Add, var("a"), bin(Op::Mul, var("b"), var("c"))));
    let (parsed, _) = expr("a / b - c").unwrap();
    assert_eq!(parsed, bin(Op::Div, var("a"), bin(Op::Sub, var("b"), var("c"))));
}

#[test]
fn parentheses_group() {
    let (parsed, remain) = expr("(a - b) - c").unwrap();
    assert_eq!(remain, "");
    assert_eq!(parsed, bin(Op::Sub, bin(Op::Sub, var("a"), var("b")), var("c")));
    let (parsed, remain) = expr("((a))").unwrap();
    assert_eq!(remain, "");
    assert_eq!(parsed, var("a"));
    let (parsed, remain) = expr("( 1.5 )x").unwrap();
    assert_eq!(remain, "x");
    assert_eq!(parsed, num("1.5"));
}

#[test]
fn binary_tree_of_the_long_example() {
    let (parsed, remain) = binary_expr("a + b + ( c + d ) * e * f + g").unwrap();
    assert_eq!(remain, "");
    let expected = bin(
        Op::Add,
        var("a"),
        bin(
            Op::Add,
            var("b"),
            bin(
                Op::Mul,
                bin(Op::Add, var("c"), var("d")),
                bin(Op::Mul, var("e"), bin(Op::Add, var("f"), var("g"))),
            ),
        ),
    );
    assert_eq!(parsed, expected);
}

#[test]
fn binary_needs_an_operator_and_a_right_side() {
    assert_eq!(binary_expr("a"), Err(ParseError::NoMatch));
    assert_eq!(binary_expr("a +"), Err(ParseError::NoMatch));
    assert_eq!(binary_expr("+ a"), Err(ParseError::NoMatch));
    assert_eq!(binary_expr("a b"), Err(ParseError::NoMatch));
}

#[test]
fn expression_stops_where_nothing_more_matches() {
    assert_eq!(expr("a +").unwrap(), (var("a"), "+"));
    assert_eq!(expr("a + )").unwrap(), (var("a"), "+ )"));
    assert_eq!(expr("a b").unwrap(), (var("a"), "b"));
    assert_eq!(expr("1 + 2 3").unwrap(), (bin(Op::Add, num("1"), num("2")), "3"));
    assert_eq!(expr("f(a").unwrap(), (var("f"), "(a"));
    assert_eq!(expr("f(a,)").unwrap(), (var("f"), "(a,)"));
}

#[test]
fn expression_fails_where_nothing_matches() {
    assert_eq!(expr(""), Err(ParseError::NoMatch));
    assert_eq!(expr("   "), Err(ParseError::NoMatch));
    assert_eq!(expr("+"), Err(ParseError::NoMatch));
    assert_eq!(expr(")"), Err(ParseError::NoMatch));
    assert_eq!(expr("()"), Err(ParseError::NoMatch));
    assert_eq!(expr("(a"), Err(ParseError::NoMatch));
    assert_eq!(expr("def"), Err(ParseError::NoMatch));
    assert_eq!(expr("é"), Err(ParseError::NoMatch));
}

#[test]
fn malformed_number_ends_the_parse() {
    assert_eq!(expr("1.2.3"), Err(ParseError::MalformedNumber));
    assert_eq!(expr("a + 1..2"), Err(ParseError::MalformedNumber));
    assert_eq!(expr("(.)"), Err(ParseError::MalformedNumber));
    assert_eq!(expr("f(a, 1.2.3)"), Err(ParseError::MalformedNumber));
    assert_eq!(call_expr("f(..)"), Err(ParseError::MalformedNumber));
    assert_eq!(func("def f(a) 1.2.3"), Err(ParseError::MalformedNumber));
    assert_eq!(input("def f(a) a + ."), Err(ParseError::MalformedNumber));
    assert_eq!(input("1.2.3"), Err(ParseError::MalformedNumber));
}

#[test]
fn malformed_number_that_no_rule_reads_is_left_alone() {
    assert_eq!(expr("a1.2.3").unwrap(), (var("a1"), ".2.3"));
    assert_eq!(expr("a 1.2.3").unwrap(), (var("a"), "1.2.3"));
    assert_eq!(extern_("extern f(a) 1.2.3").unwrap().1, "1.2.3");
}

#[test]
fn call_is_tried_before_variable() {
    assert_eq!(expr("f(x)").unwrap(), (call("f", vec![var("x")]), ""));
    assert_eq!(expr("f (x)").unwrap(), (call("f", vec![var("x")]), ""));
    assert_eq!(expr("f").unwrap(), (var("f"), ""));
    assert_eq!(expr("f()").unwrap(), (call("f", vec![]), ""));
    assert_eq!(expr("f(x) + g(1, 2)").unwrap().0, bin(
        Op::Add,
        call("f", vec![var("x")]),
        call("g", vec![num("1"), num("2")]),
    ));
}

#[test]
fn call_arguments_are_expressions() {
    let (parsed, remain) = call_expr("f(a, 1.0, b)").unwrap();
    assert_eq!(remain, "");
    assert_eq!(parsed, call("f", vec![var("a"), num("1.0"), var("b")]));
    let (parsed, remain) = call_expr("f(a, f(b))").unwrap();
    assert_eq!(remain, "");
    assert_eq!(parsed, call("f", vec![var("a"), call("f", vec![var("b")])]));
    let (parsed, remain) = call_expr("max( a+b , (c) ) rest").unwrap();
    assert_eq!(remain, "rest");
    assert_eq!(parsed, call("max", vec![bin(Op::Add, var("a"), var("b")), var("c")]));
}

#[test]
fn call_needs_its_parentheses() {
    assert_eq!(call_expr("f"), Err(ParseError::NoMatch));
    assert_eq!(call_expr("f(a"), Err(ParseError::NoMatch));
    assert_eq!(call_expr("f(a,)"), Err(ParseError::NoMatch));
    assert_eq!(call_expr("f(,a)"), Err(ParseError::NoMatch));
    assert_eq!(call_expr("1(a)"), Err(ParseError::NoMatch));
    assert_eq!(call_expr("def(a)"), Err(ParseError::NoMatch));
}

#[test]
fn prototype_forms() {
    assert_eq!(proto("f()").unwrap(), (prototype("f", &[]), ""));
    assert_eq!(proto("f ( a )").unwrap(), (prototype("f", &["a"]), ""));
    assert_eq!(proto("f(a,b) a").unwrap(), (prototype("f", &["a", "b"]), "a"));
    assert_eq!(proto("f(a, a)").unwrap(), (prototype("f", &["a", "a"]), ""));
    assert_eq!(proto("f"), Err(ParseError::NoMatch));
    assert_eq!(proto("f(a"), Err(ParseError::NoMatch));
    assert_eq!(proto("f(a,)"), Err(ParseError::NoMatch));
    assert_eq!(proto("f(a b)"), Err(ParseError::NoMatch));
    assert_eq!(proto("f(1)"), Err(ParseError::NoMatch));
    assert_eq!(proto("f(a + b)"), Err(ParseError::NoMatch));
    assert_eq!(proto("f(def)"), Err(ParseError::NoMatch));
    assert_eq!(proto("(a)"), Err(ParseError::NoMatch));
}

#[test]
fn function_definition_forms() {
    let (f, remain) = func("def f(a, b) a + b").unwrap();
    assert_eq!(remain, "");
    assert_eq!(f, Func::new(prototype("f", &["a", "b"]), bin(Op::Add, var("a"), var("b"))));
    let (f, remain) = func("  def one() 1 tail").unwrap();
    assert_eq!(remain, "tail");
    assert_eq!(f, Func::new(prototype("one", &[]), num("1")));
    assert_eq!(func("def f(a, b)"), Err(ParseError::NoMatch));
    assert_eq!(func("def f a"), Err(ParseError::NoMatch));
    assert_eq!(func("deff(a) a"), Err(ParseError::NoMatch));
    assert_eq!(func("extern f(a)"), Err(ParseError::NoMatch));
    assert_eq!(func("f(a) a"), Err(ParseError::NoMatch));
}

#[test]
fn extern_declaration_forms() {
    assert_eq!(extern_("extern sin(x)").unwrap(), (Extern::new(prototype("sin", &["x"])), ""));
    assert_eq!(extern_(" extern  g ( ) ").unwrap(), (Extern::new(prototype("g", &[])), ""));
    assert_eq!(extern_("extern"), Err(ParseError::NoMatch));
    assert_eq!(extern_("extern 5"), Err(ParseError::NoMatch));
    assert_eq!(extern_("externf(a)"), Err(ParseError::NoMatch));
    assert_eq!(extern_("def f(a) a"), Err(ParseError::NoMatch));
}

#[test]
fn input_takes_the_first_rule_that_matches() {
    assert_eq!(
        input("extern f(a)").unwrap(),
        (InputAst::Extern(Extern::new(prototype("f", &["a"]))), "")
    );
    assert_eq!(
        input("def f(a) a").unwrap(),
        (InputAst::Func(Func::new(prototype("f", &["a"]), var("a"))), "")
    );
    assert_eq!(input(" a + 1 ").unwrap(), (InputAst::Expr(bin(Op::Add, var("a"), num("1"))), ""));
    assert_eq!(input("e + d").unwrap(), (InputAst::Expr(bin(Op::Add, var("e"), var("d"))), ""));
    assert_eq!(
        input("deff(a) a").unwrap(),
        (InputAst::Expr(call("deff", vec![var("a")])), "a")
    );
    assert_eq!(input("def f(a)"), Err(ParseError::NoMatch));
    assert_eq!(input("extern 5"), Err(ParseError::NoMatch));
    assert_eq!(input(""), Err(ParseError::NoMatch));
    assert_eq!(input("= 1"), Err(ParseError::NoMatch));
}

#[test]
fn parsing_twice_gives_equal_trees() {
    let texts = [
        "def f(a, b) a + b",
        "extern g(x)",
        "a - b - c",
        "f(a, f(b)) * (1.5 + x)",
        "def f(a) 1.2.3",
        "",
        "(",
    ];
    for text in texts.iter() {
        assert_eq!(input(text), input(text));
    }
}

#[test]
fn number_holds_a_decimal_literal() {
    assert_eq!(Number::new("1.5".to_string()).unwrap().literal(), "1.5");
    assert_eq!(Number::new("7".to_string()).unwrap().literal(), "7");
    assert!(Number::new("1.2.3".to_string()).is_none());
    assert!(Number::new(".".to_string()).is_none());
    assert!(Number::new("".to_string()).is_none());
    assert!(Number::new("1e5".to_string()).is_none());
    assert!(Number::new("-1".to_string()).is_none());
}

#[test]
fn anonymous_function_wraps_an_expression() {
    let f = Func::top_level_expr(var("x"));
    assert_eq!(f, Func::new(prototype("__anon_expr", &[]), var("x")));
    assert_eq!(Proto::annonymus(), prototype("__anon_expr", &[]));
}
