//! The grammar, as ordered choice over the recognisers of [`crate::token`]:
//!
//! ```text
//! top_level    := extern_decl | function_def | expr
//! extern_decl  := "extern" prototype
//! function_def := "def" prototype expr
//! prototype    := identifier "(" (identifier ("," identifier)*)? ")"
//! expr         := unary_expr (binop expr)?
//! unary_expr   := "(" expr ")" | call_expr | number | variable
//! call_expr    := identifier "(" (expr ("," expr)*)? ")"
//! binop        := "+" | "-" | "*" | "/"
//! ```
//!
//! Of the alternatives of a rule the first that matches is taken. All four
//! operators have one precedence and group to the right: `a - b - c` is
//! `a - (b - c)`.

use crate::ast::{
    exprs_view, Ast, Binary, Call, CodeGenError, Expr, ExprAst, ExprView, Extern, ExternView,
    Func, FuncView, Number, Op, Proto, ProtoView, Variable,
};
use crate::llvm::{
    names_view, FunctionRef, IRBuilder, Module, ModuleView, SymbolTable, ValueRef,
};
use crate::lowering::Effect;
use crate::token::{
    agrees, kw_def, kw_extern, left, shifted, spaces, spec_ident, spec_keyword, spec_number,
    spec_symbol, told, ParseError, Parsed, Source,
};
use vstd::prelude::*;

verus! {

/// What one line of input holds.
#[derive(Debug, PartialEq)]
pub enum InputAst {
    Expr(Expr),
    Func(Func),
    Extern(Extern),
}

/// Mathematical value of an [`InputAst`].
pub enum InputAstView {
    Expr(ExprView),
    Func(FuncView),
    Extern(ExternView),
}

impl View for InputAst {
    type V = InputAstView;

    open spec fn view(&self) -> InputAstView {
        match self {
            InputAst::Expr(e) => InputAstView::Expr(e@),
            InputAst::Func(f) => InputAstView::Func(f@),
            InputAst::Extern(e) => InputAstView::Extern(e@),
        }
    }
}

/// A binary operator at `pos`, and the characters taken, whitespace included.
pub open spec fn spec_op(s: Seq<char>, pos: nat) -> Option<(Op, nat)> {
    if pos < s.len() {
        let c = s[pos as int];
        let len = 1 + spaces(s, pos + 1);
        if c == '+' {
            Some((Op::Add, len))
        } else if c == '-' {
            Some((Op::Sub, len))
        } else if c == '*' {
            Some((Op::Mul, len))
        } else if c == '/' {
            Some((Op::Div, len))
        } else {
            None
        }
    } else {
        None
    }
}

/// `number`, as an expression.
pub open spec fn spec_num(s: Seq<char>, pos: nat) -> Parsed<ExprView> {
    match spec_number(s, pos) {
        Parsed::Match { value, len } => Parsed::Match {
            value: ExprView::Number { literal: value },
            len,
        },
        Parsed::NoMatch => Parsed::NoMatch,
        Parsed::Malformed => Parsed::Malformed,
    }
}

/// `variable`: an identifier, as an expression.
pub open spec fn spec_var(s: Seq<char>, pos: nat) -> Parsed<ExprView> {
    match spec_ident(s, pos) {
        Parsed::Match { value, len } => Parsed::Match {
            value: ExprView::Variable { name: value },
            len,
        },
        Parsed::NoMatch => Parsed::NoMatch,
        Parsed::Malformed => Parsed::Malformed,
    }
}

/// `prefix` in front of the list that `p` matched, with `by` more characters
/// taken.
pub open spec fn extended<T>(prefix: Seq<T>, by: nat, p: Parsed<Seq<T>>) -> Parsed<Seq<T>> {
    match p {
        Parsed::Match { value, len } => Parsed::Match { value: prefix + value, len: by + len },
        Parsed::NoMatch => Parsed::NoMatch,
        Parsed::Malformed => Parsed::Malformed,
    }
}

/// `expr := unary_expr (binop expr)?`, read as: a binary expression, else a
/// unary one.
pub open spec fn spec_expr(s: Seq<char>, pos: nat) -> Parsed<ExprView>
    decreases left(s, pos), 5nat,
{
    match spec_binary(s, pos) {
        Parsed::NoMatch => spec_unary(s, pos),
        Parsed::Match { value, len } => Parsed::Match { value, len },
        Parsed::Malformed => Parsed::Malformed,
    }
}

/// `unary_expr binop expr`: the right side takes all that follows, so the
/// operators group to the right and none binds tighter than another.
pub open spec fn spec_binary(s: Seq<char>, pos: nat) -> Parsed<ExprView>
    decreases left(s, pos), 4nat,
{
    match spec_unary(s, pos) {
        Parsed::Match { value: lhs, len: n1 } => match spec_op(s, pos + n1) {
            Some((op, n2)) => match spec_expr(s, pos + n1 + n2) {
                Parsed::Match { value: rhs, len: n3 } => Parsed::Match {
                    value: ExprView::Binary { op, lhs: Box::new(lhs), rhs: Box::new(rhs) },
                    len: n1 + n2 + n3,
                },
                Parsed::NoMatch => Parsed::NoMatch,
                Parsed::Malformed => Parsed::Malformed,
            },
            None => Parsed::NoMatch,
        },
        Parsed::NoMatch => Parsed::NoMatch,
        Parsed::Malformed => Parsed::Malformed,
    }
}

/// `unary_expr := "(" expr ")" | call_expr | number | variable`.
pub open spec fn spec_unary(s: Seq<char>, pos: nat) -> Parsed<ExprView>
    decreases left(s, pos), 3nat,
{
    match spec_paren(s, pos) {
        Parsed::NoMatch => match spec_call(s, pos) {
            Parsed::NoMatch => match spec_num(s, pos) {
                Parsed::NoMatch => spec_var(s, pos),
                Parsed::Match { value, len } => Parsed::Match { value, len },
                Parsed::Malformed => Parsed::Malformed,
            },
            Parsed::Match { value, len } => Parsed::Match { value, len },
            Parsed::Malformed => Parsed::Malformed,
        },
        Parsed::Match { value, len } => Parsed::Match { value, len },
        Parsed::Malformed => Parsed::Malformed,
    }
}

/// `"(" expr ")"`.
pub open spec fn spec_paren(s: Seq<char>, pos: nat) -> Parsed<ExprView>
    decreases left(s, pos), 2nat,
{
    match spec_symbol(s, pos, '(') {
        None => Parsed::NoMatch,
        Some(n1) => match spec_expr(s, pos + n1) {
            Parsed::Match { value, len: n2 } => match spec_symbol(s, pos + n1 + n2, ')') {
                Some(n3) => Parsed::Match { value, len: n1 + n2 + n3 },
                None => Parsed::NoMatch,
            },
            Parsed::NoMatch => Parsed::NoMatch,
            Parsed::Malformed => Parsed::Malformed,
        },
    }
}

/// `call_expr := identifier "(" (expr ("," expr)*)? ")"`.
pub open spec fn spec_call(s: Seq<char>, pos: nat) -> Parsed<ExprView>
    decreases left(s, pos), 2nat,
{
    match spec_ident(s, pos) {
        Parsed::Match { value: callee, len: n1 } => match spec_symbol(s, pos + n1, '(') {
            Some(n2) => match spec_args(s, pos + n1 + n2) {
                Parsed::Match { value: args, len: n3 } => match spec_symbol(
                    s,
                    pos + n1 + n2 + n3,
                    ')',
                ) {
                    Some(n4) => Parsed::Match {
                        value: ExprView::Call { callee, args },
                        len: n1 + n2 + n3 + n4,
                    },
                    None => Parsed::NoMatch,
                },
                Parsed::NoMatch => Parsed::NoMatch,
                Parsed::Malformed => Parsed::Malformed,
            },
            None => Parsed::NoMatch,
        },
        Parsed::NoMatch => Parsed::NoMatch,
        Parsed::Malformed => Parsed::Malformed,
    }
}

/// `(expr ("," expr)*)?`: the empty list where no expression starts.
pub open spec fn spec_args(s: Seq<char>, pos: nat) -> Parsed<Seq<ExprView>>
    decreases left(s, pos), 7nat,
{
    match spec_expr(s, pos) {
        Parsed::Match { value: first, len: n1 } => extended(
            seq![first],
            n1,
            spec_args_tail(s, pos + n1),
        ),
        Parsed::NoMatch => Parsed::Match { value: Seq::empty(), len: 0 },
        Parsed::Malformed => Parsed::Malformed,
    }
}

/// `("," expr)*`: it ends before the first `,` that no expression follows.
pub open spec fn spec_args_tail(s: Seq<char>, pos: nat) -> Parsed<Seq<ExprView>>
    decreases left(s, pos), 6nat,
{
    match spec_symbol(s, pos, ',') {
        None => Parsed::Match { value: Seq::empty(), len: 0 },
        Some(n1) => match spec_expr(s, pos + n1) {
            Parsed::Match { value: next, len: n2 } => extended(
                seq![next],
                n1 + n2,
                spec_args_tail(s, pos + n1 + n2),
            ),
            Parsed::NoMatch => Parsed::Match { value: Seq::empty(), len: 0 },
            Parsed::Malformed => Parsed::Malformed,
        },
    }
}

/// `("," identifier)*`: the names, and the characters taken.
pub open spec fn spec_names_tail(s: Seq<char>, pos: nat) -> (Seq<Seq<char>>, nat)
    decreases left(s, pos),
{
    match spec_symbol(s, pos, ',') {
        None => (Seq::empty(), 0),
        Some(n1) => match spec_ident(s, pos + n1) {
            Parsed::Match { value: name, len: n2 } => {
                let rest = spec_names_tail(s, pos + n1 + n2);
                (seq![name] + rest.0, n1 + n2 + rest.1)
            },
            _ => (Seq::empty(), 0),
        },
    }
}

/// `(identifier ("," identifier)*)?`: the names, and the characters taken.
pub open spec fn spec_names(s: Seq<char>, pos: nat) -> (Seq<Seq<char>>, nat) {
    match spec_ident(s, pos) {
        Parsed::Match { value: name, len: n1 } => {
            let rest = spec_names_tail(s, pos + n1);
            (seq![name] + rest.0, n1 + rest.1)
        },
        _ => (Seq::empty(), 0),
    }
}

/// `prototype := identifier "(" (identifier ("," identifier)*)? ")"`.
pub open spec fn spec_proto(s: Seq<char>, pos: nat) -> Parsed<ProtoView> {
    match spec_ident(s, pos) {
        Parsed::Match { value: name, len: n1 } => match spec_symbol(s, pos + n1, '(') {
            Some(n2) => {
                let names = spec_names(s, pos + n1 + n2);
                match spec_symbol(s, pos + n1 + n2 + names.1, ')') {
                    Some(n3) => Parsed::Match {
                        value: ProtoView { name, args: names.0 },
                        len: n1 + n2 + names.1 + n3,
                    },
                    None => Parsed::NoMatch,
                }
            },
            None => Parsed::NoMatch,
        },
        _ => Parsed::NoMatch,
    }
}

/// `function_def := "def" prototype expr`.
pub open spec fn spec_func(s: Seq<char>, pos: nat) -> Parsed<FuncView> {
    match spec_keyword(s, pos, kw_def()) {
        Some(n1) => match spec_proto(s, pos + n1) {
            Parsed::Match { value: proto, len: n2 } => match spec_expr(s, pos + n1 + n2) {
                Parsed::Match { value: body, len: n3 } => Parsed::Match {
                    value: FuncView { proto, body },
                    len: n1 + n2 + n3,
                },
                Parsed::NoMatch => Parsed::NoMatch,
                Parsed::Malformed => Parsed::Malformed,
            },
            _ => Parsed::NoMatch,
        },
        None => Parsed::NoMatch,
    }
}

/// `extern_decl := "extern" prototype`.
pub open spec fn spec_extern(s: Seq<char>, pos: nat) -> Parsed<ExternView> {
    match spec_keyword(s, pos, kw_extern()) {
        Some(n1) => match spec_proto(s, pos + n1) {
            Parsed::Match { value: proto, len: n2 } => Parsed::Match {
                value: ExternView { proto },
                len: n1 + n2,
            },
            _ => Parsed::NoMatch,
        },
        None => Parsed::NoMatch,
    }
}

/// `top_level := extern_decl | function_def | expr`.
pub open spec fn spec_input(s: Seq<char>, pos: nat) -> Parsed<InputAstView> {
    match spec_extern(s, pos) {
        Parsed::Match { value, len } => Parsed::Match { value: InputAstView::Extern(value), len },
        _ => match spec_func(s, pos) {
            Parsed::Match { value, len } => Parsed::Match {
                value: InputAstView::Func(value),
                len,
            },
            Parsed::Malformed => Parsed::Malformed,
            Parsed::NoMatch => match spec_expr(s, pos) {
                Parsed::Match { value, len } => Parsed::Match {
                    value: InputAstView::Expr(value),
                    len,
                },
                Parsed::NoMatch => Parsed::NoMatch,
                Parsed::Malformed => Parsed::Malformed,
            },
        },
    }
}

/// What the whole text `s` holds, given what a rule makes of it at its
/// first token: the whitespace in front of that token is taken too.
pub open spec fn from_start<T>(s: Seq<char>, at_first_token: Parsed<T>) -> Parsed<T> {
    shifted(at_first_token, spaces(s, 0))
}

/// What `text` holds when read as one top-level item.
pub open spec fn parse_input(text: Seq<char>) -> Parsed<InputAstView> {
    from_start(text, spec_input(text, spaces(text, 0)))
}

/// What `text` holds when read as an expression.
pub open spec fn parse_expr(text: Seq<char>) -> Parsed<ExprView> {
    from_start(text, spec_expr(text, spaces(text, 0)))
}

/// What `text` holds when read as a binary expression.
pub open spec fn parse_binary(text: Seq<char>) -> Parsed<ExprView> {
    from_start(text, spec_binary(text, spaces(text, 0)))
}

/// What `text` holds when read as a call.
pub open spec fn parse_call(text: Seq<char>) -> Parsed<ExprView> {
    from_start(text, spec_call(text, spaces(text, 0)))
}

/// What `text` holds when read as a prototype.
pub open spec fn parse_proto(text: Seq<char>) -> Parsed<ProtoView> {
    from_start(text, spec_proto(text, spaces(text, 0)))
}

/// What `text` holds when read as a function definition.
pub open spec fn parse_func(text: Seq<char>) -> Parsed<FuncView> {
    from_start(text, spec_func(text, spaces(text, 0)))
}

/// What `text` holds when read as a forward declaration.
pub open spec fn parse_extern(text: Seq<char>) -> Parsed<ExternView> {
    from_start(text, spec_extern(text, spaces(text, 0)))
}

/// The verdict of an executable recogniser of a list of expressions that
/// started at `pos`, held against what the grammar says of that position.
pub open spec fn agrees_exprs(
    got: Result<(Vec<Expr>, usize), ParseError>,
    pos: usize,
    expected: Parsed<Seq<ExprView>>,
) -> bool {
    match expected {
        Parsed::Match { value, len } => got matches Ok((v, next)) && exprs_view(v@) == value
            && next == pos + len,
        Parsed::NoMatch => got == Err::<(Vec<Expr>, usize), ParseError>(ParseError::NoMatch),
        Parsed::Malformed => got == Err::<(Vec<Expr>, usize), ParseError>(
            ParseError::MalformedNumber,
        ),
    }
}

/// The binary operator at `pos`, and where the next token starts.
pub fn op_at(src: &Source, pos: usize) -> (r: Option<(Op, usize)>)
    requires
        pos <= src@.len(),
    ensures
        match spec_op(src@, pos as nat) {
            Some((op, len)) => r matches Some((o, next)) && o == op && next == pos + len && pos
                < next <= src@.len(),
            None => r is None,
        },
{
    if pos >= src.len() {
        return None;
    }
    let op = match src.at(pos) {
        '+' => Op::Add,
        '-' => Op::Sub,
        '*' => Op::Mul,
        '/' => Op::Div,
        _ => {
            return None;
        },
    };
    Some((op, src.skip_spaces(pos + 1)))
}

/// The number at `pos`, as an expression.
pub fn num_at(src: &Source, pos: usize) -> (r: Result<(Expr, usize), ParseError>)
    requires
        pos <= src@.len(),
    ensures
        agrees(r, pos, spec_num(src@, pos as nat)),
        r matches Ok((_, next)) ==> pos < next <= src@.len(),
{
    match src.number(pos) {
        Ok((literal, next)) => match Number::new(literal) {
            Some(number) => Ok((Expr::Number(number), next)),
            None => Err(ParseError::MalformedNumber),
        },
        Err(e) => Err(e),
    }
}

/// The variable at `pos`.
pub fn var_at(src: &Source, pos: usize) -> (r: Result<(Expr, usize), ParseError>)
    requires
        pos <= src@.len(),
    ensures
        agrees(r, pos, spec_var(src@, pos as nat)),
        r matches Ok((_, next)) ==> pos < next <= src@.len(),
{
    match src.ident(pos) {
        Ok((name, next)) => Ok((Expr::Variable(Variable::new(name)), next)),
        Err(e) => Err(e),
    }
}

/// The expression at `pos`: a unary expression, and where an operator and
/// an expression follow it, the binary expression of the three.
pub fn expr_at(src: &Source, pos: usize) -> (r: Result<(Expr, usize), ParseError>)
    requires
        pos <= src@.len(),
    ensures
        agrees(r, pos, spec_expr(src@, pos as nat)),
        r matches Ok((_, next)) ==> pos < next <= src@.len(),
    decreases left(src@, pos as nat), 5nat,
{
    let (lhs, p1) = match unary_at(src, pos) {
        Ok(found) => found,
        Err(e) => {
            return Err(e);
        },
    };
    let (op, p2) = match op_at(src, p1) {
        Some(found) => found,
        None => {
            return Ok((lhs, p1));
        },
    };
    match expr_at(src, p2) {
        Ok((rhs, p3)) => Ok((Expr::Binary(Box::new(Binary::new(op, lhs, rhs))), p3)),
        Err(ParseError::NoMatch) => Ok((lhs, p1)),
        Err(ParseError::MalformedNumber) => Err(ParseError::MalformedNumber),
    }
}

/// The binary expression at `pos`: a unary expression, an operator and an
/// expression. A unary expression alone is no match.
pub fn binary_at(src: &Source, pos: usize) -> (r: Result<(Expr, usize), ParseError>)
    requires
        pos <= src@.len(),
    ensures
        agrees(r, pos, spec_binary(src@, pos as nat)),
        r matches Ok((_, next)) ==> pos < next <= src@.len(),
    decreases left(src@, pos as nat), 4nat,
{
    let (lhs, p1) = match unary_at(src, pos) {
        Ok(found) => found,
        Err(e) => {
            return Err(e);
        },
    };
    let (op, p2) = match op_at(src, p1) {
        Some(found) => found,
        None => {
            return Err(ParseError::NoMatch);
        },
    };
    match expr_at(src, p2) {
        Ok((rhs, p3)) => Ok((Expr::Binary(Box::new(Binary::new(op, lhs, rhs))), p3)),
        Err(e) => Err(e),
    }
}

/// The unary expression at `pos`: an expression in parentheses, else a call,
/// else a number, else a variable.
pub fn unary_at(src: &Source, pos: usize) -> (r: Result<(Expr, usize), ParseError>)
    requires
        pos <= src@.len(),
    ensures
        agrees(r, pos, spec_unary(src@, pos as nat)),
        r matches Ok((_, next)) ==> pos < next <= src@.len(),
    decreases left(src@, pos as nat), 3nat,
{
    match paren_at(src, pos) {
        Err(ParseError::NoMatch) => {},
        other => {
            return other;
        },
    }
    match call_at(src, pos) {
        Err(ParseError::NoMatch) => {},
        other => {
            return other;
        },
    }
    match num_at(src, pos) {
        Err(ParseError::NoMatch) => {},
        other => {
            return other;
        },
    }
    var_at(src, pos)
}

/// The expression in parentheses at `pos`.
pub fn paren_at(src: &Source, pos: usize) -> (r: Result<(Expr, usize), ParseError>)
    requires
        pos <= src@.len(),
    ensures
        agrees(r, pos, spec_paren(src@, pos as nat)),
        r matches Ok((_, next)) ==> pos < next <= src@.len(),
    decreases left(src@, pos as nat), 2nat,
{
    let p1 = match src.symbol(pos, '(') {
        Some(p) => p,
        None => {
            return Err(ParseError::NoMatch);
        },
    };
    let (inner, p2) = match expr_at(src, p1) {
        Ok(found) => found,
        Err(e) => {
            return Err(e);
        },
    };
    match src.symbol(p2, ')') {
        Some(p3) => Ok((inner, p3)),
        None => Err(ParseError::NoMatch),
    }
}

/// The call at `pos`.
pub fn call_at(src: &Source, pos: usize) -> (r: Result<(Expr, usize), ParseError>)
    requires
        pos <= src@.len(),
    ensures
        agrees(r, pos, spec_call(src@, pos as nat)),
        r matches Ok((_, next)) ==> pos < next <= src@.len(),
    decreases left(src@, pos as nat), 2nat,
{
    let (callee, p1) = match src.ident(pos) {
        Ok(found) => found,
        Err(e) => {
            return Err(e);
        },
    };
    let p2 = match src.symbol(p1, '(') {
        Some(p) => p,
        None => {
            return Err(ParseError::NoMatch);
        },
    };
    let (args, p3) = match args_at(src, p2) {
        Ok(found) => found,
        Err(e) => {
            return Err(e);
        },
    };
    match src.symbol(p3, ')') {
        Some(p4) => Ok((Call::new(callee, args).into_expr(), p4)),
        None => Err(ParseError::NoMatch),
    }
}

/// The list of arguments at `pos`, which may be empty.
pub fn args_at(src: &Source, pos: usize) -> (r: Result<(Vec<Expr>, usize), ParseError>)
    requires
        pos <= src@.len(),
    ensures
        agrees_exprs(r, pos, spec_args(src@, pos as nat)),
        r matches Ok((_, next)) ==> pos <= next <= src@.len(),
    decreases left(src@, pos as nat), 7nat,
{
    let mut args: Vec<Expr> = Vec::new();
    let mut cur = match expr_at(src, pos) {
        Ok((first, next)) => {
            args.push(first);
            next
        },
        Err(ParseError::NoMatch) => {
            assert(exprs_view(args@) =~= Seq::<ExprView>::empty());
            return Ok((args, pos));
        },
        Err(ParseError::MalformedNumber) => {
            return Err(ParseError::MalformedNumber);
        },
    };
    let ghost start = cur as nat;
    proof {
        assert(exprs_view(args@) =~= seq![args@[0]@]);
        lemma_extended_nothing(exprs_view(args@), spec_args_tail(src@, start));
    }
    loop
        invariant
            pos < cur <= src@.len(),
            pos < start <= cur,
            spec_expr(src@, pos as nat) matches Parsed::Match { value, len } && start == pos + len
                && seq![value] == exprs_view(args@).take(1),
            exprs_view(args@).len() >= 1,
            extended(
                exprs_view(args@).skip(1),
                (cur - start) as nat,
                spec_args_tail(src@, cur as nat),
            ) == spec_args_tail(src@, start),
        ensures
            spec_args_tail(src@, cur as nat) == (Parsed::Match {
                value: Seq::<ExprView>::empty(),
                len: 0,
            }),
        decreases left(src@, cur as nat),
    {
        let ghost before = exprs_view(args@);
        let p1 = match src.symbol(cur, ',') {
            Some(p) => p,
            None => {
                break ;
            },
        };
        match expr_at(src, p1) {
            Ok((next, p2)) => {
                args.push(next);
                proof {
                    assert(exprs_view(args@) =~= before.push(next@));
                    assert(exprs_view(args@).take(1) =~= before.take(1));
                    lemma_extended_twice(
                        before.skip(1),
                        (cur - start) as nat,
                        seq![next@],
                        (p2 - cur) as nat,
                        spec_args_tail(src@, p2 as nat),
                    );
                    assert(before.skip(1) + seq![next@] =~= exprs_view(args@).skip(1));
                }
                cur = p2;
            },
            Err(ParseError::NoMatch) => {
                break ;
            },
            Err(ParseError::MalformedNumber) => {
                return Err(ParseError::MalformedNumber);
            },
        }
    }
    proof {
        let all = exprs_view(args@);
        assert(seq![all[0]] =~= all.take(1));
        assert(seq![all[0]] + (all.skip(1) + Seq::<ExprView>::empty()) =~= all);
    }
    Ok((args, cur))
}

/// Nothing in front of a list, and no character more, is that list.
pub proof fn lemma_extended_nothing<T>(first: Seq<T>, p: Parsed<Seq<T>>)
    ensures
        extended(Seq::<T>::empty(), 0, p) == p,
        extended(first.skip(first.len() as int), 0, p) == p,
{
    match p {
        Parsed::Match { value, len } => {
            assert(Seq::<T>::empty() + value =~= value);
            assert(first.skip(first.len() as int) + value =~= value);
        },
        _ => {},
    }
}

/// Two lists in front of a third are their concatenation in front of it.
pub proof fn lemma_extended_twice<T>(a: Seq<T>, n: nat, b: Seq<T>, m: nat, p: Parsed<Seq<T>>)
    ensures
        extended(a, n, extended(b, m, p)) == extended(a + b, n + m, p),
{
    match p {
        Parsed::Match { value, len } => {
            assert(a + (b + value) =~= (a + b) + value);
        },
        _ => {},
    }
}

/// The list of parameter names at `pos`, which may be empty, and where the
/// next token starts.
pub fn names_at(src: &Source, pos: usize) -> (r: (Vec<String>, usize))
    requires
        pos <= src@.len(),
    ensures
        names_view(r.0@) == spec_names(src@, pos as nat).0,
        r.1 == pos + spec_names(src@, pos as nat).1,
        r.1 <= src@.len(),
{
    let mut names: Vec<String> = Vec::new();
    let mut cur = match src.ident(pos) {
        Ok((first, next)) => {
            names.push(first);
            next
        },
        Err(_) => {
            assert(names_view(names@) =~= Seq::<Seq<char>>::empty());
            return (names, pos);
        },
    };
    let ghost start = cur as nat;
    proof {
        assert(names_view(names@) =~= seq![names@[0]@]);
        assert(names_view(names@).skip(1) + spec_names_tail(src@, start).0 =~= spec_names_tail(
            src@,
            start,
        ).0);
    }
    loop
        invariant
            pos < cur <= src@.len(),
            pos < start <= cur,
            spec_ident(src@, pos as nat) matches Parsed::Match { value, len } && start == pos + len
                && seq![value] == names_view(names@).take(1),
            names_view(names@).len() >= 1,
            names_view(names@).skip(1) + spec_names_tail(src@, cur as nat).0 == spec_names_tail(
                src@,
                start,
            ).0,
            (cur - start) + spec_names_tail(src@, cur as nat).1 == spec_names_tail(src@, start).1,
        ensures
            spec_names_tail(src@, cur as nat) == (Seq::<Seq<char>>::empty(), 0nat),
        decreases left(src@, cur as nat),
    {
        let ghost before = names_view(names@);
        let p1 = match src.symbol(cur, ',') {
            Some(p) => p,
            None => {
                break ;
            },
        };
        match src.ident(p1) {
            Ok((next, p2)) => {
                names.push(next);
                proof {
                    let rest = spec_names_tail(src@, p2 as nat).0;
                    assert(names_view(names@) =~= before.push(next@));
                    assert(names_view(names@).take(1) =~= before.take(1));
                    assert(before.skip(1) + (seq![next@] + rest) =~= names_view(names@).skip(1)
                        + rest);
                }
                cur = p2;
            },
            Err(_) => {
                break ;
            },
        }
    }
    proof {
        let all = names_view(names@);
        assert(seq![all[0]] =~= all.take(1));
        assert(seq![all[0]] + (all.skip(1) + Seq::<Seq<char>>::empty()) =~= all);
    }
    (names, cur)
}

/// The prototype at `pos`.
pub fn proto_at(src: &Source, pos: usize) -> (r: Result<(Proto, usize), ParseError>)
    requires
        pos <= src@.len(),
    ensures
        agrees(r, pos, spec_proto(src@, pos as nat)),
        r matches Ok((_, next)) ==> pos < next <= src@.len(),
{
    let (name, p1) = match src.ident(pos) {
        Ok(found) => found,
        Err(_) => {
            return Err(ParseError::NoMatch);
        },
    };
    let p2 = match src.symbol(p1, '(') {
        Some(p) => p,
        None => {
            return Err(ParseError::NoMatch);
        },
    };
    let (args, p3) = names_at(src, p2);
    match src.symbol(p3, ')') {
        Some(p4) => Ok((Proto::new(name, args), p4)),
        None => Err(ParseError::NoMatch),
    }
}

/// The function definition at `pos`.
pub fn func_at(src: &Source, pos: usize) -> (r: Result<(Func, usize), ParseError>)
    requires
        pos <= src@.len(),
    ensures
        agrees(r, pos, spec_func(src@, pos as nat)),
        r matches Ok((_, next)) ==> pos < next <= src@.len(),
{
    proof {
        reveal_strlit("def");
        assert("def"@ =~= kw_def());
    }
    let p1 = match src.keyword(pos, "def") {
        Some(p) => p,
        None => {
            return Err(ParseError::NoMatch);
        },
    };
    let (proto, p2) = match proto_at(src, p1) {
        Ok(found) => found,
        Err(_) => {
            return Err(ParseError::NoMatch);
        },
    };
    match expr_at(src, p2) {
        Ok((body, p3)) => Ok((Func::new(proto, body), p3)),
        Err(e) => Err(e),
    }
}

/// The forward declaration at `pos`.
pub fn extern_at(src: &Source, pos: usize) -> (r: Result<(Extern, usize), ParseError>)
    requires
        pos <= src@.len(),
    ensures
        agrees(r, pos, spec_extern(src@, pos as nat)),
        r matches Ok((_, next)) ==> pos < next <= src@.len(),
{
    proof {
        reveal_strlit("extern");
        assert("extern"@ =~= kw_extern());
    }
    let p1 = match src.keyword(pos, "extern") {
        Some(p) => p,
        None => {
            return Err(ParseError::NoMatch);
        },
    };
    match proto_at(src, p1) {
        Ok((proto, p2)) => Ok((Extern::new(proto), p2)),
        Err(_) => Err(ParseError::NoMatch),
    }
}

/// The top-level item at `pos`: a forward declaration, else a function
/// definition, else an expression.
pub fn input_at(src: &Source, pos: usize) -> (r: Result<(InputAst, usize), ParseError>)
    requires
        pos <= src@.len(),
    ensures
        agrees(r, pos, spec_input(src@, pos as nat)),
        r matches Ok((_, next)) ==> pos < next <= src@.len(),
{
    match extern_at(src, pos) {
        Ok((e, next)) => {
            return Ok((InputAst::Extern(e), next));
        },
        Err(_) => {},
    }
    match func_at(src, pos) {
        Ok((f, next)) => {
            return Ok((InputAst::Func(f), next));
        },
        Err(ParseError::MalformedNumber) => {
            return Err(ParseError::MalformedNumber);
        },
        Err(ParseError::NoMatch) => {},
    }
    match expr_at(src, pos) {
        Ok((e, next)) => Ok((InputAst::Expr(e), next)),
        Err(e) => Err(e),
    }
}

/// The top-level item that `text` starts with, and the text after it.
/// Whitespace before the item and after it is skipped.
pub fn input(text: &str) -> (r: Result<(InputAst, &str), ParseError>)
    ensures
        told(r, text@, parse_input(text@)),
{
    let src = Source::new(text);
    let r = input_at(&src, src.skip_spaces(0));
    src.told(r)
}

/// The expression that `text` starts with, and the text after it.
pub fn expr(text: &str) -> (r: Result<(Expr, &str), ParseError>)
    ensures
        told(r, text@, parse_expr(text@)),
{
    let src = Source::new(text);
    let r = expr_at(&src, src.skip_spaces(0));
    src.told(r)
}

/// The binary expression that `text` starts with, and the text after it.
pub fn binary_expr(text: &str) -> (r: Result<(Expr, &str), ParseError>)
    ensures
        told(r, text@, parse_binary(text@)),
{
    let src = Source::new(text);
    let r = binary_at(&src, src.skip_spaces(0));
    src.told(r)
}

/// The call that `text` starts with, and the text after it.
pub fn call_expr(text: &str) -> (r: Result<(Expr, &str), ParseError>)
    ensures
        told(r, text@, parse_call(text@)),
{
    let src = Source::new(text);
    let r = call_at(&src, src.skip_spaces(0));
    src.told(r)
}

/// The prototype that `text` starts with, and the text after it.
pub fn proto(text: &str) -> (r: Result<(Proto, &str), ParseError>)
    ensures
        told(r, text@, parse_proto(text@)),
{
    let src = Source::new(text);
    let r = proto_at(&src, src.skip_spaces(0));
    src.told(r)
}

/// The function definition that `text` starts with, and the text after it.
pub fn func(text: &str) -> (r: Result<(Func, &str), ParseError>)
    ensures
        told(r, text@, parse_func(text@)),
{
    let src = Source::new(text);
    let r = func_at(&src, src.skip_spaces(0));
    src.told(r)
}

/// The forward declaration that `text` starts with, and the text after it.
pub fn extern_(text: &str) -> (r: Result<(Extern, &str), ParseError>)
    ensures
        told(r, text@, parse_extern(text@)),
{
    let src = Source::new(text);
    let r = extern_at(&src, src.skip_spaces(0));
    src.told(r)
}

/// The operators group to the right: where an expression does not start
/// with a parenthesis, the left side of its outermost operator is no binary
/// expression, so that `a - b - c` can only be `a - (b - c)`.
pub proof fn lemma_groups_to_the_right(s: Seq<char>, pos: nat)
    requires
        spec_symbol(s, pos, '(') is None,
    ensures
        spec_unary(s, pos) matches Parsed::Match { value, .. } ==> !(value is Binary),
        spec_expr(s, pos) matches Parsed::Match { value: ExprView::Binary { lhs, .. }, .. }
            ==> !(*lhs is Binary),
{
}

/// Parsing is a function of the text: two results for one text hold equal
/// trees and equal remainders, or the same failure.
pub proof fn lemma_input_deterministic(
    text: Seq<char>,
    first: Result<(InputAst, &str), ParseError>,
    second: Result<(InputAst, &str), ParseError>,
)
    requires
        told(first, text, parse_input(text)),
        told(second, text, parse_input(text)),
    ensures
        match (first, second) {
            (Ok((a, rest_a)), Ok((b, rest_b))) => a@ == b@ && rest_a@ == rest_b@,
            (Err(a), Err(b)) => a == b,
            _ => false,
        },
{
}

/// What code generation for a top-level item hands back: a value for an
/// expression, a function for a definition or a declaration.
#[derive(Debug, Clone, Copy, PartialEq, Eq, Structural)]
pub enum Generated {
    Value(ValueRef),
    Function(FunctionRef),
}

/// `effect`, with what comes back wrapped by `wrap`.
pub open spec fn wrapped<T>(effect: Effect<T>, wrap: spec_fn(T) -> Generated) -> Effect<
    Generated,
> {
    Effect {
        module: effect.module,
        symbols: effect.symbols,
        emitted: effect.emitted,
        result: match effect.result {
            Ok(v) => Ok(wrap(v)),
            Err(failure) => Err(failure),
        },
    }
}

impl Ast for InputAst {
    type Output = Generated;

    open spec fn lowering(
        &self,
        m: ModuleView,
        symbols: Map<Seq<char>, ValueRef>,
        base: nat,
    ) -> Effect<Generated> {
        match self {
            InputAst::Expr(e) => wrapped(
                e.lowering(m, symbols, base),
                |v: ValueRef| Generated::Value(v),
            ),
            InputAst::Func(f) => wrapped(
                f.lowering(m, symbols, base),
                |f: FunctionRef| Generated::Function(f),
            ),
            InputAst::Extern(e) => wrapped(
                e.lowering(m, symbols, base),
                |f: FunctionRef| Generated::Function(f),
            ),
        }
    }

    /// Generates code for the item, by the rule of its kind. For a
    /// definition the backend's verdict is still to be had, and to be handed
    /// to [`Func::verified`].
    fn codegen(&self, m: &mut Module, ir: &mut IRBuilder, st: &mut SymbolTable) -> (r: Result<
        Generated,
        CodeGenError,
    >) {
        match self {
            InputAst::Expr(e) => match e.codegen(m, ir, st) {
                Ok(v) => Ok(Generated::Value(v)),
                Err(e) => Err(e),
            },
            InputAst::Func(f) => match f.codegen(m, ir, st) {
                Ok(f) => Ok(Generated::Function(f)),
                Err(e) => Err(e),
            },
            InputAst::Extern(e) => match e.codegen(m, ir, st) {
                Ok(f) => Ok(Generated::Function(f)),
                Err(e) => Err(e),
            },
        }
    }
}

} // verus!
