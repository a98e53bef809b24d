use kaleidscope::ast::{
    Ast, Binary, Call, CodeGenError, ErrorKind, Expr, ExprAst, Extern, Frame, Func, Number, Op,
    Proto, Variable,
};
use kaleidscope::llvm::{
    const_f64, BasicBlock, Function, FunctionRef, IRBuilder, Inst, Module, SymbolTable, ValueRef,
};
use kaleidscope::parser::{input, Generated, InputAst};

fn var(name: &str) -> Expr {
    Variable::new(name.to_string()).into_expr()
}

fn num(literal: &str) -> Expr {
    Number::new(literal.to_string()).unwrap().into_expr()
}

fn bin(op: Op, lhs: Expr, rhs: Expr) -> Expr {
    Binary::new(op, lhs, rhs).into_expr()
}

fn call(callee: &str, args: Vec<Expr>) -> Expr {
    Call::new(callee.to_string(), args).into_expr()
}

fn prototype(name: &str, params: &[&str]) -> Proto {
    Proto::new(name.to_string(), params.iter().map(|p| p.to_string()).collect())
}

fn session() -> (Module, IRBuilder, SymbolTable) {
    (Module::new("test"), IRBuilder::new(), SymbolTable::new())
}

fn recorded(ir: &IRBuilder) -> Vec<&Inst> {
    (0..ir.len()).map(|i| ir.inst(i)).collect()
}

fn arg(function: usize, index: usize) -> ValueRef {
    ValueRef::Argument { function: FunctionRef { index: function }, index }
}

fn at(index: usize) -> ValueRef {
    ValueRef::Instruction { index }
}

fn parsed(text: &str) -> InputAst {
    let (item, rest) = input(text).unwrap();
    assert_eq!(rest, "");
    item
}

#[test]
fn variable_out_of_scope_fails_with_one_frame() {
    let (mut m, mut ir, mut st) = session();
    st.insert("y".to_string(), at(7));
    let node = Variable::new("x".to_string());
    let e = node.codegen(&mut m, &mut ir, &mut st).unwrap_err();
    assert_eq!(e.kind, ErrorKind::UndefinedVariable("x".to_string()));
    assert_eq!(e.comment, "Undefined variable: x");
    assert_eq!(e.trace, vec![Frame::Variable { name: "x".to_string() }]);
    assert_eq!(e.trace.len(), 1);
    assert_eq!(ir.len(), 0);
    assert_eq!(m.len(), 0);
    assert_eq!(st.len(), 1);
}

#[test]
fn variable_in_scope_is_its_value() {
    let (mut m, mut ir, mut st) = session();
    st.insert("x".to_string(), arg(3, 1));
    let v = var("x").codegen(&mut m, &mut ir, &mut st).unwrap();
    assert_eq!(v, arg(3, 1));
    assert_eq!(ir.len(), 0);
}

#[test]
fn number_is_one_constant() {
    let (mut m, mut ir, mut st) = session();
    let v = num("1.5").codegen(&mut m, &mut ir, &mut st).unwrap();
    assert_eq!(v, at(0));
    let w = num("2").codegen(&mut m, &mut ir, &mut st).unwrap();
    assert_eq!(w, at(1));
    assert_eq!(
        recorded(&ir),
        vec![&Inst::Const { literal: "1.5".into() }, &Inst::Const { literal: "2".into() }]
    );
}

#[test]
fn binary_generates_left_then_right_then_itself() {
    let (mut m, mut ir, mut st) = session();
    st.insert("a".to_string(), arg(0, 0));
    let e = bin(Op::Sub, num("1"), bin(Op::Mul, var("a"), num("2")));
    let v = e.codegen(&mut m, &mut ir, &mut st).unwrap();
    assert_eq!(v, at(3));
    assert_eq!(
        recorded(&ir),
        vec![
            &Inst::Const { literal: "1".into() },
            &Inst::Const { literal: "2".into() },
            &Inst::FMul { lhs: arg(0, 0), rhs: at(1), name: "multmp".into() },
            &Inst::FSub { lhs: at(0), rhs: at(2), name: "subtmp".into() },
        ]
    );
}

#[test]
fn each_operator_has_its_instruction() {
    let (mut m, mut ir, mut st) = session();
    st.insert("a".to_string(), arg(0, 0));
    st.insert("b".to_string(), arg(0, 1));
    for op in [Op::Add, Op::Sub, Op::Mul, Op::Div] {
        bin(op, var("a"), var("b")).codegen(&mut m, &mut ir, &mut st).unwrap();
    }
    let (lhs, rhs) = (arg(0, 0), arg(0, 1));
    assert_eq!(
        recorded(&ir),
        vec![
            &Inst::FAdd { lhs, rhs, name: "addtmp".into() },
            &Inst::FSub { lhs, rhs, name: "subtmp".into() },
            &Inst::FMul { lhs, rhs, name: "multmp".into() },
            &Inst::FDiv { lhs, rhs, name: "divtmp".into() },
        ]
    );
}

#[test]
fn division_by_zero_is_not_looked_for() {
    let (mut m, mut ir, mut st) = session();
    let v = bin(Op::Div, num("1"), num("0")).codegen(&mut m, &mut ir, &mut st).unwrap();
    assert_eq!(v, at(2));
    assert_eq!(ir.inst(2), &Inst::FDiv { lhs: at(0), rhs: at(1), name: "divtmp".into() });
}

#[test]
fn binary_failure_on_the_left_skips_the_right() {
    let (mut m, mut ir, mut st) = session();
    let e = bin(Op::Add, var("missing"), num("2"));
    let failure = e.codegen(&mut m, &mut ir, &mut st).unwrap_err();
    assert_eq!(failure.kind, ErrorKind::UndefinedVariable("missing".into()));
    assert_eq!(
        failure.trace,
        vec![Frame::Variable { name: "missing".into() }, Frame::Binary { op: Op::Add }]
    );
    assert_eq!(ir.len(), 0);
}

#[test]
fn binary_failure_on_the_right_keeps_what_the_left_recorded() {
    let (mut m, mut ir, mut st) = session();
    let e = bin(Op::Mul, num("2"), bin(Op::Div, num("3"), var("z")));
    let failure = e.codegen(&mut m, &mut ir, &mut st).unwrap_err();
    assert_eq!(failure.kind, ErrorKind::UndefinedVariable("z".into()));
    assert_eq!(failure.comment, "Undefined variable: z");
    assert_eq!(
        failure.trace,
        vec![
            Frame::Variable { name: "z".into() },
            Frame::Binary { op: Op::Div },
            Frame::Binary { op: Op::Mul },
        ]
    );
    assert_eq!(
        recorded(&ir),
        vec![&Inst::Const { literal: "2".into() }, &Inst::Const { literal: "3".into() }]
    );
}

#[test]
fn call_of_an_unknown_function_fails_before_its_arguments() {
    let (mut m, mut ir, mut st) = session();
    let e = call("nowhere", vec![num("1"), var("also_missing")]);
    let failure = e.codegen(&mut m, &mut ir, &mut st).unwrap_err();
    assert_eq!(failure.kind, ErrorKind::UnknownFunction("nowhere".into()));
    assert_eq!(failure.comment, "Unknown function: nowhere");
    assert_eq!(failure.trace, vec![Frame::Call { callee: "nowhere".into() }]);
    assert_eq!(ir.len(), 0);
}

#[test]
fn call_generates_its_arguments_from_left_to_right() {
    let (mut m, mut ir, mut st) = session();
    let f = Extern::new(prototype("f", &["a", "b", "c"])).codegen(&mut m, &mut ir, &mut st).unwrap();
    st.insert("x".to_string(), arg(9, 0));
    let e = call("f", vec![num("1"), var("x"), bin(Op::Add, num("2"), num("3"))]);
    let v = e.codegen(&mut m, &mut ir, &mut st).unwrap();
    assert_eq!(v, at(4));
    assert_eq!(
        recorded(&ir),
        vec![
            &Inst::Const { literal: "1".into() },
            &Inst::Const { literal: "2".into() },
            &Inst::Const { literal: "3".into() },
            &Inst::FAdd { lhs: at(1), rhs: at(2), name: "addtmp".into() },
            &Inst::Call {
                function: f,
                args: vec![at(0), arg(9, 0), at(3)],
                name: "calltmp".into()
            },
        ]
    );
}

#[test]
fn call_stops_at_its_first_failing_argument() {
    let (mut m, mut ir, mut st) = session();
    Extern::new(prototype("f", &["a", "b", "c"])).codegen(&mut m, &mut ir, &mut st).unwrap();
    let e = call("f", vec![num("1"), var("first"), var("second"), num("4")]);
    let failure = e.codegen(&mut m, &mut ir, &mut st).unwrap_err();
    assert_eq!(failure.kind, ErrorKind::UndefinedVariable("first".into()));
    assert_eq!(
        failure.trace,
        vec![Frame::Variable { name: "first".into() }, Frame::Call { callee: "f".into() }]
    );
    assert_eq!(recorded(&ir), vec![&Inst::Const { literal: "1".into() }]);
}

#[test]
fn call_after_extern_succeeds_whatever_the_number_of_arguments() {
    for count in 0..5usize {
        let (mut m, mut ir, mut st) = session();
        let f = Extern::new(prototype("f", &["a", "b"])).codegen(&mut m, &mut ir, &mut st).unwrap();
        let args: Vec<Expr> = (0..count).map(|i| num(&i.to_string())).collect();
        let v = call("f", args).codegen(&mut m, &mut ir, &mut st).unwrap();
        assert_eq!(v, at(count));
        assert_eq!(ir.len(), count + 1);
        match ir.inst(count) {
            Inst::Call { function, args, name } => {
                assert_eq!(*function, f);
                assert_eq!(args.len(), count);
                assert_eq!(*args, (0..count).map(at).collect::<Vec<_>>());
                assert_eq!(name, "calltmp");
            }
            other => panic!("no call: {:?}", other),
        }
        assert_eq!(m.function(f).params.len(), 2);
    }
}

#[test]
fn prototype_declares_a_function_with_named_parameters() {
    let (mut m, mut ir, mut st) = session();
    st.insert("kept".to_string(), at(1));
    let f = prototype("f", &["a", "b", "c"]).codegen(&mut m, &mut ir, &mut st).unwrap();
    assert_eq!(f, FunctionRef { index: 0 });
    assert_eq!(m.len(), 1);
    assert_eq!(
        m.function(f),
        &Function { name: "f".into(), params: vec!["a".into(), "b".into(), "c".into()] }
    );
    assert_eq!(f.num_args(&m), 3);
    assert_eq!(f.get_args(&m), vec![arg(0, 0), arg(0, 1), arg(0, 2)]);
    assert_eq!(arg(0, 1).get_name(&m), "b");
    assert_eq!(ir.len(), 0);
    assert_eq!(st.len(), 1);
}

#[test]
fn prototype_always_declares_a_new_function() {
    let (mut m, mut ir, mut st) = session();
    let first = prototype("f", &["a"]).codegen(&mut m, &mut ir, &mut st).unwrap();
    let second = prototype("f", &["x", "y"]).codegen(&mut m, &mut ir, &mut st).unwrap();
    assert_ne!(first, second);
    assert_eq!(m.len(), 2);
    assert_eq!(m.get_function("f"), Some(first));
    assert_eq!(m.function(second).params, vec!["x".to_string(), "y".to_string()]);
}

#[test]
fn definition_parses_generates_and_verifies() {
    let (mut m, mut ir, mut st) = session();
    let item = parsed("def f(a, b) a + b");
    let func = match item {
        InputAst::Func(f) => f,
        other => panic!("no definition: {:?}", other),
    };
    assert_eq!(func.body, bin(Op::Add, var("a"), var("b")));
    let built = func.codegen(&mut m, &mut ir, &mut st).unwrap();
    let f = func.verified(built, true).unwrap();
    assert_eq!(f, built);
    assert_eq!(m.get_function("f"), Some(f));
    assert_eq!(m.function(f).name, "f");
    assert_eq!(m.function(f).params, vec!["a".to_string(), "b".to_string()]);
    assert_eq!(f.num_args(&m), 2);
    assert_eq!(
        recorded(&ir),
        vec![
            &Inst::AppendBlock { function: f, name: "entry".into() },
            &Inst::Position { block: BasicBlock { index: 0 } },
            &Inst::FAdd { lhs: arg(0, 0), rhs: arg(0, 1), name: "addtmp".into() },
            &Inst::Ret { value: at(2) },
        ]
    );
    assert_eq!(st.get("a"), Some(&arg(0, 0)));
    assert_eq!(st.get("b"), Some(&arg(0, 1)));
    assert_eq!(st.len(), 2);
}

#[test]
fn definition_with_an_undefined_name_fails_with_its_path() {
    let (mut m, mut ir, mut st) = session();
    let item = parsed("def f(a) a + undefined_name");
    let failure = item.codegen(&mut m, &mut ir, &mut st).unwrap_err();
    assert_eq!(failure.kind, ErrorKind::UndefinedVariable("undefined_name".into()));
    assert_eq!(failure.comment, "Undefined variable: undefined_name");
    assert_eq!(
        failure.trace,
        vec![
            Frame::Variable { name: "undefined_name".into() },
            Frame::Binary { op: Op::Add },
            Frame::Func { name: "f".into() },
        ]
    );
    // Nothing is rolled back: the function stays declared, its block opened.
    assert_eq!(m.get_function("f"), Some(FunctionRef { index: 0 }));
    assert_eq!(
        recorded(&ir),
        vec![
            &Inst::AppendBlock { function: FunctionRef { index: 0 }, name: "entry".into() },
            &Inst::Position { block: BasicBlock { index: 0 } },
        ]
    );
}

#[test]
fn definition_after_extern_reuses_the_function() {
    let (mut m, mut ir, mut st) = session();
    let declared = Extern::new(prototype("g", &["x"])).codegen(&mut m, &mut ir, &mut st).unwrap();
    let func = Func::new(prototype("g", &["x"]), bin(Op::Mul, var("x"), num("2")));
    let defined = func.codegen(&mut m, &mut ir, &mut st).unwrap();
    assert_eq!(defined, declared);
    assert_eq!(m.len(), 1);
    assert_eq!(func.verified(defined, true).unwrap(), declared);
}

#[test]
fn definition_builds_on_the_first_function_of_its_name() {
    let (mut m, mut ir, mut st) = session();
    let first = Extern::new(prototype("g", &["x"])).codegen(&mut m, &mut ir, &mut st).unwrap();
    let second = Extern::new(prototype("g", &["y"])).codegen(&mut m, &mut ir, &mut st).unwrap();
    assert_ne!(first, second);
    let func = Func::new(prototype("g", &["x"]), var("x"));
    let defined = func.codegen(&mut m, &mut ir, &mut st).unwrap();
    assert_eq!(defined, first);
    assert_eq!(m.len(), 2);
}

#[test]
fn definition_binds_the_parameters_of_the_first_declaration() {
    let (mut m, mut ir, mut st) = session();
    Extern::new(prototype("g", &["a", "b"])).codegen(&mut m, &mut ir, &mut st).unwrap();
    let func = Func::new(prototype("g", &["x", "y"]), var("x"));
    let failure = func.codegen(&mut m, &mut ir, &mut st).unwrap_err();
    assert_eq!(failure.kind, ErrorKind::UndefinedVariable("x".into()));
    assert_eq!(
        failure.trace,
        vec![Frame::Variable { name: "x".into() }, Frame::Func { name: "g".into() }]
    );
    assert_eq!(st.get("a"), Some(&arg(0, 0)));
    assert_eq!(st.get("b"), Some(&arg(0, 1)));
    assert!(st.get("x").is_none());
}

#[test]
fn definition_resets_the_symbol_table() {
    let (mut m, mut ir, mut st) = session();
    st.insert("stale".to_string(), at(40));
    Func::new(prototype("f", &["a"]), var("a")).codegen(&mut m, &mut ir, &mut st).unwrap();
    assert!(st.get("stale").is_none());
    let failure = Func::new(prototype("h", &["b"]), var("a"))
        .codegen(&mut m, &mut ir, &mut st)
        .unwrap_err();
    assert_eq!(failure.kind, ErrorKind::UndefinedVariable("a".into()));
    assert_eq!(st.len(), 1);
    assert_eq!(st.get("b"), Some(&arg(1, 0)));
}

#[test]
fn later_parameter_of_the_same_name_wins() {
    let (mut m, mut ir, mut st) = session();
    let func = Func::new(prototype("f", &["a", "b", "a"]), var("a"));
    func.codegen(&mut m, &mut ir, &mut st).unwrap();
    assert_eq!(st.len(), 2);
    assert_eq!(st.get("a"), Some(&arg(0, 2)));
    assert_eq!(ir.inst(2), &Inst::Ret { value: arg(0, 2) });
}

#[test]
fn second_definition_appends_a_second_entry_block() {
    let (mut m, mut ir, mut st) = session();
    let func = Func::new(prototype("f", &[]), num("1"));
    let first = func.codegen(&mut m, &mut ir, &mut st).unwrap();
    let second = func.codegen(&mut m, &mut ir, &mut st).unwrap();
    assert_eq!(first, second);
    assert_eq!(m.len(), 1);
    assert_eq!(ir.len(), 8);
    assert_eq!(ir.inst(4), &Inst::AppendBlock { function: first, name: "entry".into() });
    assert_eq!(ir.inst(5), &Inst::Position { block: BasicBlock { index: 4 } });
    assert_eq!(ir.inst(7), &Inst::Ret { value: at(6) });
}

#[test]
fn verdict_decides_the_end_of_a_definition() {
    let (mut m, mut ir, mut st) = session();
    Extern::new(prototype("g", &["a", "b"])).codegen(&mut m, &mut ir, &mut st).unwrap();
    let func = Func::new(prototype("f", &["x"]), call("g", vec![var("x")]));
    let built = func.codegen(&mut m, &mut ir, &mut st).unwrap();
    assert_eq!(func.verified(built, true), Ok(built));
    let failure = func.verified(built, false).unwrap_err();
    assert_eq!(failure.kind, ErrorKind::VerificationFailure);
    assert_eq!(failure.comment, "Function verification failed");
    assert_eq!(failure.trace, vec![Frame::Func { name: "f".into() }]);
    // The function that did not pass stays declared.
    assert_eq!(m.get_function("f"), Some(built));
}

#[test]
fn error_is_made_with_one_frame_and_grows_by_one() {
    let e = CodeGenError::new(
        ErrorKind::UnknownFunction("f".into()),
        Frame::Call { callee: "f".into() },
    );
    assert_eq!(e.comment, "Unknown function: f");
    assert_eq!(e.trace, vec![Frame::Call { callee: "f".into() }]);
    let e = e.pushed(Frame::Binary { op: Op::Add }).pushed(Frame::Func { name: "g".into() });
    assert_eq!(e.kind, ErrorKind::UnknownFunction("f".into()));
    assert_eq!(e.comment, "Unknown function: f");
    assert_eq!(
        e.trace,
        vec![
            Frame::Call { callee: "f".into() },
            Frame::Binary { op: Op::Add },
            Frame::Func { name: "g".into() },
        ]
    );
}

#[test]
fn error_kinds_have_their_comments() {
    assert_eq!(ErrorKind::UndefinedVariable("x".into()).comment(), "Undefined variable: x");
    assert_eq!(ErrorKind::UnknownFunction("f".into()).comment(), "Unknown function: f");
    assert_eq!(ErrorKind::VerificationFailure.comment(), "Function verification failed");
}

#[test]
fn nodes_describe_themselves() {
    assert_eq!(var("x").frame(), Frame::Variable { name: "x".into() });
    assert_eq!(num("1.5").frame(), Frame::Number { literal: "1.5".into() });
    assert_eq!(call("f", vec![num("1")]).frame(), Frame::Call { callee: "f".into() });
    assert_eq!(bin(Op::Div, num("1"), num("2")).frame(), Frame::Binary { op: Op::Div });
    assert_eq!(prototype("p", &["a"]).frame(), Frame::Proto { name: "p".into() });
    assert_eq!(Func::new(prototype("f", &[]), num("1")).frame(), Frame::Func { name: "f".into() });
    assert_eq!(Extern::new(prototype("e", &[])).frame(), Frame::Extern { name: "e".into() });
}

#[test]
fn top_level_items_generate_by_their_kind() {
    let (mut m, mut ir, mut st) = session();
    let declared = parsed("extern sin(x)").codegen(&mut m, &mut ir, &mut st).unwrap();
    assert_eq!(declared, Generated::Function(FunctionRef { index: 0 }));
    let defined = parsed("def twice(x) sin(x) * 2").codegen(&mut m, &mut ir, &mut st).unwrap();
    assert_eq!(defined, Generated::Function(FunctionRef { index: 1 }));
    let before = ir.len();
    let value = parsed("twice(1.5) + x").codegen(&mut m, &mut ir, &mut st).unwrap();
    assert_eq!(value, Generated::Value(at(before + 2)));
    assert_eq!(ir.inst(before), &Inst::Const { literal: "1.5".into() });
    assert_eq!(
        ir.inst(before + 1),
        &Inst::Call { function: FunctionRef { index: 1 }, args: vec![at(before)], name: "calltmp".into() }
    );
    assert_eq!(
        ir.inst(before + 2),
        &Inst::FAdd { lhs: at(before + 1), rhs: arg(1, 0), name: "addtmp".into() }
    );
    let failure = parsed("cos(1)").codegen(&mut m, &mut ir, &mut st).unwrap_err();
    assert_eq!(failure.kind, ErrorKind::UnknownFunction("cos".into()));
}

#[test]
fn anonymous_definition_has_no_parameters() {
    let (mut m, mut ir, mut st) = session();
    st.insert("x".to_string(), at(0));
    let wrapped = Func::top_level_expr(bin(Op::Add, num("1"), num("2")));
    let f = wrapped.codegen(&mut m, &mut ir, &mut st).unwrap();
    assert_eq!(m.function(f).name, "__anon_expr");
    assert_eq!(f.num_args(&m), 0);
    assert_eq!(st.len(), 0);
    assert_eq!(ir.len(), 6);
}

#[test]
fn module_finds_the_first_function_of_a_name() {
    let mut m = Module::new("m");
    assert_eq!(m.name(), "m");
    assert_eq!(m.get_function("f"), None);
    let f = m.create_function("f", 2);
    let g = m.create_function("g", 0);
    let f2 = m.create_function("f", 1);
    assert_eq!((f.index, g.index, f2.index), (0, 1, 2));
    assert_eq!(m.get_function("f"), Some(f));
    assert_eq!(m.get_function("g"), Some(g));
    assert_eq!(m.get_function("h"), None);
    assert_eq!(m.get_function(""), None);
    assert_eq!(m.len(), 3);
    assert_eq!(m.function(f).params, vec![String::new(), String::new()]);
}

#[test]
fn parameters_are_named_one_by_one() {
    let mut m = Module::new("m");
    let f = m.create_function("f", 2);
    let g = m.create_function("g", 1);
    let mut args = f.get_args(&m);
    args[1].set_name(&mut m, "second");
    assert_eq!(args[1], arg(0, 1));
    assert_eq!(args[0].get_name(&m), "");
    assert_eq!(args[1].get_name(&m), "second");
    assert_eq!(m.function(g).params, vec![String::new()]);
    args[1].set_name(&mut m, "again");
    assert_eq!(m.function(f).params, vec![String::new(), "again".to_string()]);
}

#[test]
fn builder_hands_out_positions() {
    let mut ir = IRBuilder::new();
    let f = FunctionRef { index: 0 };
    let bb = BasicBlock::new(&mut ir, f, "entry");
    assert_eq!(bb, BasicBlock { index: 0 });
    ir.set_position(&bb);
    let c = const_f64(&mut ir, "4.");
    assert_eq!(c, at(2));
    let args = [c, arg(0, 0)];
    let v = ir.build_call(f, &args, "calltmp");
    assert_eq!(v, at(3));
    let r = ir.build_return(v);
    assert_eq!(r, at(4));
    assert_eq!(
        recorded(&ir),
        vec![
            &Inst::AppendBlock { function: f, name: "entry".into() },
            &Inst::Position { block: bb },
            &Inst::Const { literal: "4.".into() },
            &Inst::Call { function: f, args: vec![c, arg(0, 0)], name: "calltmp".into() },
            &Inst::Ret { value: v },
        ]
    );
}
