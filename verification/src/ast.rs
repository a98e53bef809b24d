//! The syntax tree, and the code generator that walks it.

use crate::llvm::{
    arguments, const_f64, lookup, names_view, unnamed, BasicBlock, FunctionRef, IRBuilder,
    InstView, Module, ModuleView, SymbolTable, ValueRef,
};
use crate::lowering::{
    binary_inst, bound, conclude, lemma_call_after_declaration,
    lemma_definition_after_declaration, lemma_lower_args_failed, lower_args, lower_expr,
    lower_func, lower_proto, outcome, recording, resolve, Effect, Lowered,
};
use crate::token::{is_number_literal, number_literal};
use vstd::prelude::*;
use vstd::string::StringExecFns;

verus! {

/// The four binary operators of the language.
#[derive(Debug, Clone, Copy, PartialEq, Eq, Structural)]
pub enum Op {
    Add,
    Sub,
    Mul,
    Div,
}

/// What a frame of a diagnostic trace says of a syntax-tree node: its kind,
/// and the name or operator that tells it from its neighbours.
#[derive(Debug, PartialEq)]
pub enum Frame {
    Variable { name: String },
    Number { literal: String },
    Call { callee: String },
    Binary { op: Op },
    Proto { name: String },
    Func { name: String },
    Extern { name: String },
}

/// Mathematical value of a [`Frame`].
pub enum FrameView {
    Variable { name: Seq<char> },
    Number { literal: Seq<char> },
    Call { callee: Seq<char> },
    Binary { op: Op },
    Proto { name: Seq<char> },
    Func { name: Seq<char> },
    Extern { name: Seq<char> },
}

impl View for Frame {
    type V = FrameView;

    open spec fn view(&self) -> FrameView {
        match self {
            Frame::Variable { name } => FrameView::Variable { name: name@ },
            Frame::Number { literal } => FrameView::Number { literal: literal@ },
            Frame::Call { callee } => FrameView::Call { callee: callee@ },
            Frame::Binary { op } => FrameView::Binary { op: *op },
            Frame::Proto { name } => FrameView::Proto { name: name@ },
            Frame::Func { name } => FrameView::Func { name: name@ },
            Frame::Extern { name } => FrameView::Extern { name: name@ },
        }
    }
}

/// The ways in which code generation fails.
#[derive(Debug, PartialEq)]
pub enum ErrorKind {
    /// A variable is no parameter of the function being generated.
    UndefinedVariable(String),
    /// A call names a function that was not declared.
    UnknownFunction(String),
    /// The backend found the finished function malformed.
    VerificationFailure,
}

/// Mathematical value of an [`ErrorKind`].
pub enum ErrorKindView {
    UndefinedVariable(Seq<char>),
    UnknownFunction(Seq<char>),
    VerificationFailure,
}

impl View for ErrorKind {
    type V = ErrorKindView;

    open spec fn view(&self) -> ErrorKindView {
        match self {
            ErrorKind::UndefinedVariable(name) => ErrorKindView::UndefinedVariable(name@),
            ErrorKind::UnknownFunction(name) => ErrorKindView::UnknownFunction(name@),
            ErrorKind::VerificationFailure => ErrorKindView::VerificationFailure,
        }
    }
}

impl ErrorKindView {
    /// The sentence that tells a reader what went wrong.
    pub open spec fn comment(self) -> Seq<char> {
        match self {
            ErrorKindView::UndefinedVariable(name) => "Undefined variable: "@ + name,
            ErrorKindView::UnknownFunction(name) => "Unknown function: "@ + name,
            ErrorKindView::VerificationFailure => "Function verification failed"@,
        }
    }
}

impl ErrorKind {
    /// The sentence that tells a reader what went wrong.
    pub fn comment(&self) -> (text: String)
        ensures
            text@ == self@.comment(),
    {
        match self {
            ErrorKind::UndefinedVariable(name) => String::from_str("Undefined variable: ").concat(
                name.as_str(),
            ),
            ErrorKind::UnknownFunction(name) => String::from_str("Unknown function: ").concat(
                name.as_str(),
            ),
            ErrorKind::VerificationFailure => String::from_str("Function verification failed"),
        }
    }
}

/// A failure of code generation: what went wrong, and the nodes on the way
/// from the failing one up to the root, innermost first.
#[derive(Debug, PartialEq)]
pub struct CodeGenError {
    pub kind: ErrorKind,
    pub comment: String,
    pub trace: Vec<Frame>,
}

/// Mathematical value of a [`CodeGenError`].
pub struct CodeGenErrorView {
    pub kind: ErrorKindView,
    pub comment: Seq<char>,
    pub trace: Seq<FrameView>,
}

/// The values of a list of frames.
pub open spec fn frames_view(frames: Seq<Frame>) -> Seq<FrameView> {
    Seq::new(frames.len(), |i: int| frames[i]@)
}

impl View for CodeGenError {
    type V = CodeGenErrorView;

    open spec fn view(&self) -> CodeGenErrorView {
        CodeGenErrorView {
            kind: self.kind@,
            comment: self.comment@,
            trace: frames_view(self.trace@),
        }
    }
}

impl CodeGenErrorView {
    /// A failure of `kind` that was noticed at `node`.
    pub open spec fn new(kind: ErrorKindView, node: FrameView) -> CodeGenErrorView {
        CodeGenErrorView { kind, comment: kind.comment(), trace: seq![node] }
    }

    /// This failure, seen from the enclosing `node`.
    pub open spec fn pushed(self, node: FrameView) -> CodeGenErrorView {
        CodeGenErrorView { kind: self.kind, comment: self.comment, trace: self.trace.push(node) }
    }
}

impl CodeGenError {
    /// A failure of `kind` that was noticed at `ast`: the trace holds that
    /// one node.
    pub fn new(kind: ErrorKind, ast: Frame) -> (e: CodeGenError)
        ensures
            e@ == CodeGenErrorView::new(kind@, ast@),
    {
        let comment = kind.comment();
        let mut trace: Vec<Frame> = Vec::new();
        trace.push(ast);
        let e = CodeGenError { kind, comment, trace };
        assert(e@.trace =~= seq![ast@]);
        e
    }

    /// This failure with `ast` added at the end of its trace. Kind and
    /// comment stay as they are.
    pub fn pushed(self, ast: Frame) -> (e: CodeGenError)
        ensures
            e@ == self@.pushed(ast@),
    {
        let mut trace = self.trace;
        trace.push(ast);
        let e = CodeGenError { kind: self.kind, comment: self.comment, trace };
        assert(e@.trace =~= self@.trace.push(ast@));
        e
    }
}

/// Mathematical value of an expression tree.
pub enum ExprView {
    Variable { name: Seq<char> },
    Number { literal: Seq<char> },
    Call { callee: Seq<char>, args: Seq<ExprView> },
    Binary { op: Op, lhs: Box<ExprView>, rhs: Box<ExprView> },
}

/// A reference to a parameter of the function being defined.
#[derive(Debug, PartialEq)]
pub struct Variable {
    pub name: String,
}

/// A numeric constant, kept as the decimal literal it was written as: digits
/// with at most one `.` among them.
#[derive(Debug, PartialEq)]
pub struct Number {
    literal: String,
}

/// A call of a named function. The number of arguments is not held against
/// the number of parameters of the callee.
#[derive(Debug, PartialEq)]
pub struct Call {
    pub callee: String,
    pub args: Vec<Expr>,
}

/// A binary operation.
#[derive(Debug, PartialEq)]
pub struct Binary {
    pub op: Op,
    pub lhs: Expr,
    pub rhs: Expr,
}

/// An expression: each node owns its children.
#[derive(Debug, PartialEq)]
pub enum Expr {
    Variable(Variable),
    Number(Number),
    Call(Call),
    Binary(Box<Binary>),
}

/// A node that code can be generated for.
pub trait Ast {
    /// What comes back: a value for an expression, a function for a
    /// prototype, a definition or a declaration.
    type Output;

    /// What generating code for this node does, where the function table
    /// holds `m`, the symbol table `symbols`, and the builder has recorded
    /// `base` construction calls.
    spec fn lowering(
        &self,
        m: ModuleView,
        symbols: Map<Seq<char>, ValueRef>,
        base: nat,
    ) -> Effect<Self::Output>;

    /// Generates code for the node. What was declared and recorded before a
    /// failure stays: nothing is rolled back.
    fn codegen(&self, m: &mut Module, ir: &mut IRBuilder, st: &mut SymbolTable) -> (r: Result<
        Self::Output,
        CodeGenError,
    >)
        ensures
            final(m)@ == self.lowering(old(m)@, old(st)@, old(ir)@.len()).module,
            final(st)@ == self.lowering(old(m)@, old(st)@, old(ir)@.len()).symbols,
            final(ir)@ == old(ir)@ + self.lowering(old(m)@, old(st)@, old(ir)@.len()).emitted,
            outcome(r) == self.lowering(old(m)@, old(st)@, old(ir)@.len()).result,
    ;
}

/// The node types that are expressions: each generates a value, and can be
/// turned into an [`Expr`].
pub trait ExprAst: Ast<Output = ValueRef> + Sized {
    /// The expression tree this node stands for.
    spec fn tree(&self) -> ExprView;

    /// This node as an expression.
    fn into_expr(self) -> (e: Expr)
        ensures
            e@ == self.tree(),
    ;
}

/// The values of a list of expressions.
pub open spec fn exprs_view(exprs: Seq<Expr>) -> Seq<ExprView> {
    Seq::new(exprs.len(), |i: int| exprs[i]@)
}

impl View for Expr {
    type V = ExprView;

    open spec fn view(&self) -> ExprView
        decreases self,
    {
        match self {
            Expr::Variable(v) => ExprView::Variable { name: v.name@ },
            Expr::Number(n) => ExprView::Number { literal: n.literal_view() },
            Expr::Call(c) => ExprView::Call {
                callee: c.callee@,
                args: Seq::new(
                    c.args@.len(),
                    |i: int|
                        if 0 <= i < c.args@.len() {
                            c.args@[i].view()
                        } else {
                            ExprView::Variable { name: Seq::empty() }
                        },
                ),
            },
            Expr::Binary(b) => ExprView::Binary {
                op: b.op,
                lhs: Box::new(b.lhs.view()),
                rhs: Box::new(b.rhs.view()),
            },
        }
    }
}

impl View for Variable {
    type V = ExprView;

    open spec fn view(&self) -> ExprView {
        ExprView::Variable { name: self.name@ }
    }
}

impl View for Number {
    type V = ExprView;

    open spec fn view(&self) -> ExprView {
        ExprView::Number { literal: self.literal_view() }
    }
}

impl View for Call {
    type V = ExprView;

    open spec fn view(&self) -> ExprView {
        ExprView::Call { callee: self.callee@, args: exprs_view(self.args@) }
    }
}

impl View for Binary {
    type V = ExprView;

    open spec fn view(&self) -> ExprView {
        ExprView::Binary { op: self.op, lhs: Box::new(self.lhs@), rhs: Box::new(self.rhs@) }
    }
}

impl Variable {
    /// A reference to the parameter called `name`.
    pub fn new(name: String) -> (v: Variable)
        ensures
            v@ == (ExprView::Variable { name: name@ }),
    {
        Variable { name }
    }
}

impl Number {
    /// The characters of the literal.
    pub closed spec fn literal_view(&self) -> Seq<char> {
        self.literal@
    }

    #[verifier::type_invariant]
    spec fn well_formed(&self) -> bool {
        is_number_literal(self.literal@)
    }

    /// The constant written as `value`, where that is a decimal literal.
    pub fn new(value: String) -> (n: Option<Number>)
        ensures
            n is Some <==> is_number_literal(value@),
            n matches Some(number) ==> number@ == (ExprView::Number { literal: value@ }),
    {
        if number_literal(value.as_str()) {
            Some(Number { literal: value })
        } else {
            None
        }
    }

    /// The literal as written.
    pub fn literal(&self) -> (text: &str)
        ensures
            text@ == self.literal_view(),
            is_number_literal(text@),
    {
        proof {
            use_type_invariant(self);
        }
        self.literal.as_str()
    }
}

impl Call {
    /// A call of the function called `callee` with `args`, in that order.
    pub fn new(callee: String, args: Vec<Expr>) -> (c: Call)
        ensures
            c@ == (ExprView::Call { callee: callee@, args: exprs_view(args@) }),
            c.callee == callee,
            c.args == args,
    {
        Call { callee, args }
    }
}

impl Binary {
    /// The operation `lhs op rhs`.
    pub fn new(op: Op, lhs: Expr, rhs: Expr) -> (b: Binary)
        ensures
            b@ == (ExprView::Binary { op, lhs: Box::new(lhs@), rhs: Box::new(rhs@) }),
            b.op == op,
            b.lhs == lhs,
            b.rhs == rhs,
    {
        Binary { op, lhs, rhs }
    }
}

impl ExprAst for Variable {
    open spec fn tree(&self) -> ExprView {
        self@
    }

    fn into_expr(self) -> (e: Expr) {
        Expr::Variable(self)
    }
}

impl ExprAst for Number {
    open spec fn tree(&self) -> ExprView {
        self@
    }

    fn into_expr(self) -> (e: Expr) {
        Expr::Number(self)
    }
}

impl ExprAst for Call {
    open spec fn tree(&self) -> ExprView {
        self@
    }

    fn into_expr(self) -> (e: Expr) {
        let e = Expr::Call(self);
        assert(e@->args =~= exprs_view(self.args@));
        e
    }
}

impl ExprAst for Binary {
    open spec fn tree(&self) -> ExprView {
        self@
    }

    fn into_expr(self) -> (e: Expr) {
        Expr::Binary(Box::new(self))
    }
}

impl ExprView {
    /// What a trace says of this node.
    pub open spec fn frame(self) -> FrameView {
        match self {
            ExprView::Variable { name } => FrameView::Variable { name },
            ExprView::Number { literal } => FrameView::Number { literal },
            ExprView::Call { callee, .. } => FrameView::Call { callee },
            ExprView::Binary { op, .. } => FrameView::Binary { op },
        }
    }
}

impl Variable {
    /// What a trace says of this node.
    pub fn frame(&self) -> (f: Frame)
        ensures
            f@ == self@.frame(),
    {
        Frame::Variable { name: self.name.clone() }
    }
}

impl Ast for Variable {
    type Output = ValueRef;

    open spec fn lowering(
        &self,
        m: ModuleView,
        symbols: Map<Seq<char>, ValueRef>,
        base: nat,
    ) -> Effect<ValueRef> {
        recording(m, symbols, lower_expr(self@, m.functions, symbols, base))
    }

    /// The value bound to the name, or `UndefinedVariable` with this node
    /// alone in the trace. Nothing is recorded or changed.
    fn codegen(&self, m: &mut Module, ir: &mut IRBuilder, st: &mut SymbolTable) -> (r: Result<
        ValueRef,
        CodeGenError,
    >)
        ensures
            final(ir)@ == old(ir)@,
            r is Ok <==> old(st)@.contains_key(self.name@),
            r matches Ok(v) ==> v == old(st)@[self.name@],
            r matches Err(e) ==> e@.kind == ErrorKindView::UndefinedVariable(self.name@)
                && e@.trace.len() == 1,
    {
        assert(ir@ =~= old(ir)@ + Seq::<InstView>::empty());
        match st.get(self.name.as_str()) {
            Some(value) => Ok(*value),
            None => Err(
                CodeGenError::new(ErrorKind::UndefinedVariable(self.name.clone()), self.frame()),
            ),
        }
    }
}

impl Number {
    /// What a trace says of this node.
    pub fn frame(&self) -> (f: Frame)
        ensures
            f@ == self@.frame(),
    {
        Frame::Number { literal: self.literal.clone() }
    }
}

impl Ast for Number {
    type Output = ValueRef;

    open spec fn lowering(
        &self,
        m: ModuleView,
        symbols: Map<Seq<char>, ValueRef>,
        base: nat,
    ) -> Effect<ValueRef> {
        recording(m, symbols, lower_expr(self@, m.functions, symbols, base))
    }

    /// Records one constant and returns it. This never fails.
    fn codegen(&self, m: &mut Module, ir: &mut IRBuilder, st: &mut SymbolTable) -> (r: Result<
        ValueRef,
        CodeGenError,
    >)
        ensures
            r is Ok,
    {
        let v = const_f64(ir, self.literal.as_str());
        assert(ir@ =~= old(ir)@ + seq![InstView::Const { literal: self.literal@ }]);
        Ok(v)
    }
}

impl Binary {
    /// What a trace says of this node.
    pub fn frame(&self) -> (f: Frame)
        ensures
            f@ == self@.frame(),
    {
        Frame::Binary { op: self.op }
    }
}

impl Ast for Binary {
    type Output = ValueRef;

    open spec fn lowering(
        &self,
        m: ModuleView,
        symbols: Map<Seq<char>, ValueRef>,
        base: nat,
    ) -> Effect<ValueRef> {
        recording(m, symbols, lower_expr(self@, m.functions, symbols, base))
    }

    /// Generates the left side, then the right side, then the operation on
    /// the two values. The operands are not looked at: a division by zero is
    /// recorded like any other.
    fn codegen(&self, m: &mut Module, ir: &mut IRBuilder, st: &mut SymbolTable) -> (r: Result<
        ValueRef,
        CodeGenError,
    >)
        decreases self,
    {
        let ghost functions = m@.functions;
        let ghost symbols = st@;
        let ghost base = ir@.len();
        let ghost left = lower_expr(self.lhs@, functions, symbols, base);
        let lhs = match self.lhs.codegen(m, ir, st) {
            Ok(v) => v,
            Err(e) => {
                return Err(e.pushed(self.frame()));
            },
        };
        let ghost right = lower_expr(self.rhs@, functions, symbols, base + left.emitted.len());
        let rhs = match self.rhs.codegen(m, ir, st) {
            Ok(v) => v,
            Err(e) => {
                assert(ir@ =~= old(ir)@ + (left.emitted + right.emitted));
                return Err(e.pushed(self.frame()));
            },
        };
        let v = match self.op {
            Op::Add => ir.build_fadd(lhs, rhs, "addtmp"),
            Op::Sub => ir.build_fsub(lhs, rhs, "subtmp"),
            Op::Mul => ir.build_fmul(lhs, rhs, "multmp"),
            Op::Div => ir.build_fdiv(lhs, rhs, "divtmp"),
        };
        assert(ir@ =~= old(ir)@ + (left.emitted + right.emitted).push(
            binary_inst(self.op, lhs, rhs),
        ));
        Ok(v)
    }
}

impl Call {
    /// What a trace says of this node.
    pub fn frame(&self) -> (f: Frame)
        ensures
            f@ == self@.frame(),
    {
        Frame::Call { callee: self.callee.clone() }
    }
}

impl Ast for Call {
    type Output = ValueRef;

    open spec fn lowering(
        &self,
        m: ModuleView,
        symbols: Map<Seq<char>, ValueRef>,
        base: nat,
    ) -> Effect<ValueRef> {
        recording(m, symbols, lower_expr(self@, m.functions, symbols, base))
    }

    /// Looks the callee up, then generates the arguments from left to right,
    /// then records the call. An unknown callee fails before any argument is
    /// generated; the first argument that fails ends the call. How many
    /// parameters the callee was declared with plays no part.
    fn codegen(&self, m: &mut Module, ir: &mut IRBuilder, st: &mut SymbolTable) -> (r: Result<
        ValueRef,
        CodeGenError,
    >)
        decreases self,
    {
        let ghost functions = m@.functions;
        let ghost symbols = st@;
        let ghost base = ir@.len();
        let ghost args = exprs_view(self.args@);
        let f = match m.get_function(self.callee.as_str()) {
            Some(f) => f,
            None => {
                assert(ir@ =~= old(ir)@ + Seq::<InstView>::empty());
                return Err(
                    CodeGenError::new(
                        ErrorKind::UnknownFunction(self.callee.clone()),
                        self.frame(),
                    ),
                );
            },
        };
        let mut values: Vec<ValueRef> = Vec::new();
        let ghost mut emitted = Seq::<InstView>::empty();
        let n = self.args.len();
        let mut i: usize = 0;
        assert(ir@ =~= old(ir)@ + emitted);
        while i < n
            invariant
                n == self.args.len(),
                i <= n,
                args == exprs_view(self.args@),
                lookup(functions, self.callee@) == Some(f),
                m@ == old(m)@,
                st@ == old(st)@,
                functions == m@.functions,
                symbols == st@,
                base == old(ir)@.len(),
                ir@ == old(ir)@ + emitted,
                lower_args(args, i as nat, functions, symbols, base) == (Lowered {
                    emitted,
                    result: Ok(values@),
                }),
            decreases n - i,
        {
            let ghost last = lower_expr(args[i as int], functions, symbols, base + emitted.len());
            proof {
                assert(decreases_to!(self.args => self.args@));
                assert(decreases_to!(self.args@ => self.args@[i as int]));
                assert(args[i as int] == self.args@[i as int]@);
            }
            match self.args[i].codegen(m, ir, st) {
                Ok(v) => {
                    values.push(v);
                },
                Err(e) => {
                    proof {
                        assert(ir@ =~= old(ir)@ + (emitted + last.emitted));
                        lemma_lower_args_failed(
                            args,
                            i as nat + 1,
                            n as nat,
                            functions,
                            symbols,
                            base,
                        );
                    }
                    return Err(e.pushed(self.frame()));
                },
            }
            proof {
                emitted = emitted + last.emitted;
                assert(ir@ =~= old(ir)@ + emitted);
            }
            i += 1;
        }
        let v = ir.build_call(f, values.as_slice(), "calltmp");
        assert(ir@ =~= old(ir)@ + emitted.push(
            InstView::Call { function: f, args: values@, name: "calltmp"@ },
        ));
        Ok(v)
    }
}

impl Expr {
    /// What a trace says of this node.
    pub fn frame(&self) -> (f: Frame)
        ensures
            f@ == self@.frame(),
    {
        match self {
            Expr::Variable(v) => v.frame(),
            Expr::Number(n) => n.frame(),
            Expr::Call(c) => c.frame(),
            Expr::Binary(b) => b.frame(),
        }
    }
}

impl Ast for Expr {
    type Output = ValueRef;

    open spec fn lowering(
        &self,
        m: ModuleView,
        symbols: Map<Seq<char>, ValueRef>,
        base: nat,
    ) -> Effect<ValueRef> {
        recording(m, symbols, lower_expr(self@, m.functions, symbols, base))
    }

    /// Generates code for the expression, by the rule of its kind.
    fn codegen(&self, m: &mut Module, ir: &mut IRBuilder, st: &mut SymbolTable) -> (r: Result<
        ValueRef,
        CodeGenError,
    >)
        decreases self,
    {
        match self {
            Expr::Variable(v) => v.codegen(m, ir, st),
            Expr::Number(n) => n.codegen(m, ir, st),
            Expr::Call(c) => {
                proof {
                    assert(decreases_to!(*self => self->Call_0));
                    assert(self@->args =~= c@->args);
                }
                c.codegen(m, ir, st)
            },
            Expr::Binary(b) => {
                proof {
                    assert(decreases_to!(*self => self->Binary_0));
                }
                b.codegen(m, ir, st)
            },
        }
    }
}

/// A function's name and the names of its parameters, in order. Two
/// parameters may have the same name: nothing checks that they differ.
#[derive(Debug, PartialEq)]
pub struct Proto {
    pub name: String,
    pub args: Vec<String>,
}

/// Mathematical value of a [`Proto`].
pub struct ProtoView {
    pub name: Seq<char>,
    pub args: Seq<Seq<char>>,
}

impl View for Proto {
    type V = ProtoView;

    open spec fn view(&self) -> ProtoView {
        ProtoView { name: self.name@, args: names_view(self.args@) }
    }
}

/// A function definition: a prototype and the one expression that is its body.
#[derive(Debug, PartialEq)]
pub struct Func {
    pub proto: Proto,
    pub body: Expr,
}

/// Mathematical value of a [`Func`].
pub struct FuncView {
    pub proto: ProtoView,
    pub body: ExprView,
}

impl View for Func {
    type V = FuncView;

    open spec fn view(&self) -> FuncView {
        FuncView { proto: self.proto@, body: self.body@ }
    }
}

/// A forward declaration: a prototype without a body.
#[derive(Debug, PartialEq)]
pub struct Extern {
    pub proto: Proto,
}

/// Mathematical value of an [`Extern`].
pub struct ExternView {
    pub proto: ProtoView,
}

impl View for Extern {
    type V = ExternView;

    open spec fn view(&self) -> ExternView {
        ExternView { proto: self.proto@ }
    }
}

/// The first `named` of `names`, followed by empty names up to the length
/// of `names`.
pub open spec fn partly_named(names: Seq<Seq<char>>, named: nat) -> Seq<Seq<char>> {
    Seq::new(
        names.len(),
        |i: int|
            if i < named {
                names[i]
            } else {
                Seq::<char>::empty()
            },
    )
}

impl Proto {
    /// The prototype of a function called `name` whose parameters are
    /// called `args`, in that order.
    pub fn new(name: String, args: Vec<String>) -> (p: Proto)
        ensures
            p.name == name,
            p.args == args,
    {
        Proto { name, args }
    }

    /// The prototype of the function that wraps an expression given on its
    /// own: it is called `__anon_expr` and has no parameters.
    pub fn annonymus() -> (p: Proto)
        ensures
            p@ == (ProtoView { name: "__anon_expr"@, args: Seq::empty() }),
    {
        let p = Proto { name: String::from_str("__anon_expr"), args: Vec::new() };
        assert(p@.args =~= Seq::<Seq<char>>::empty());
        p
    }

    /// What a trace says of this node.
    pub fn frame(&self) -> (f: Frame)
        ensures
            f@ == (FrameView::Proto { name: self.name@ }),
    {
        Frame::Proto { name: self.name.clone() }
    }
}

impl Ast for Proto {
    type Output = FunctionRef;

    open spec fn lowering(
        &self,
        m: ModuleView,
        symbols: Map<Seq<char>, ValueRef>,
        base: nat,
    ) -> Effect<FunctionRef> {
        lower_proto(self@, m, symbols)
    }

    /// Declares a new function with one parameter for each name, and names
    /// the parameters. This never fails, and never reuses a function: one of
    /// the same name that exists already stays as it is, and stays the one
    /// that a lookup finds.
    fn codegen(&self, m: &mut Module, ir: &mut IRBuilder, st: &mut SymbolTable) -> (r: Result<
        FunctionRef,
        CodeGenError,
    >)
        ensures
            final(ir)@ == old(ir)@,
            r == Ok::<FunctionRef, CodeGenError>(
                FunctionRef { index: old(m)@.functions.len() as usize },
            ),
    {
        let n = self.args.len();
        let f = m.create_function(self.name.as_str(), n);
        let args = f.get_args(m);
        let mut i: usize = 0;
        assert(unnamed(n as nat) =~= partly_named(self@.args, 0));
        while i < n
            invariant
                n == self.args.len(),
                i <= n,
                f.index == old(m)@.functions.len(),
                args@ == arguments(f, n as nat),
                m@ == old(m)@.defined(self@.name, partly_named(self@.args, i as nat)),
            decreases n - i,
        {
            let mut a = args[i];
            a.set_name(m, self.args[i].as_str());
            assert(partly_named(self@.args, i as nat).update(i as int, self@.args[i as int])
                =~= partly_named(self@.args, (i + 1) as nat));
            assert(m@.functions =~= old(m)@.defined(
                self@.name,
                partly_named(self@.args, (i + 1) as nat),
            ).functions);
            i += 1;
        }
        assert(partly_named(self@.args, n as nat) =~= self@.args);
        assert(ir@ =~= old(ir)@ + Seq::<InstView>::empty());
        Ok(f)
    }
}

impl Func {
    /// The definition of the function `proto` as `body`.
    pub fn new(proto: Proto, body: Expr) -> (f: Func)
        ensures
            f.proto == proto,
            f.body == body,
    {
        Func { proto, body }
    }

    /// The definition that wraps an expression given on its own.
    pub fn top_level_expr(expr: Expr) -> (f: Func)
        ensures
            f@ == (FuncView {
                proto: ProtoView { name: "__anon_expr"@, args: Seq::empty() },
                body: expr@,
            }),
    {
        Func { proto: Proto::annonymus(), body: expr }
    }

    /// What a trace says of this node.
    pub fn frame(&self) -> (f: Frame)
        ensures
            f@ == (FrameView::Func { name: self.proto.name@ }),
    {
        Frame::Func { name: self.proto.name.clone() }
    }

    /// The end of a definition's code generation, given the backend's verdict
    /// on the function that [`Ast::codegen`] returned: the function where it
    /// passed, else `VerificationFailure` with this definition alone in the
    /// trace. A function that did not pass stays declared.
    pub fn verified(&self, f: FunctionRef, passed: bool) -> (r: Result<FunctionRef, CodeGenError>)
        ensures
            outcome(r) == conclude(self@, f, passed),
            r is Ok <==> passed,
    {
        if passed {
            Ok(f)
        } else {
            Err(CodeGenError::new(ErrorKind::VerificationFailure, self.frame()))
        }
    }
}

impl Ast for Func {
    type Output = FunctionRef;

    open spec fn lowering(
        &self,
        m: ModuleView,
        symbols: Map<Seq<char>, ValueRef>,
        base: nat,
    ) -> Effect<FunctionRef> {
        lower_func(self@, m, base)
    }

    /// Generates the function up to its return. What is left is to have the
    /// backend verify the function, and to hand its verdict to
    /// [`Func::verified`].
    fn codegen(&self, m: &mut Module, ir: &mut IRBuilder, st: &mut SymbolTable) -> (r: Result<
        FunctionRef,
        CodeGenError,
    >) {
        let ghost base = ir@.len();
        let found = m.get_function(self.proto.name.as_str());
        let f = match found {
            Some(f) => f,
            None => match self.proto.codegen(m, ir, st) {
                Ok(f) => f,
                Err(e) => {
                    return Err(e.pushed(self.frame()));
                },
            },
        };
        let ghost module = m@;
        assert(resolve(old(m)@, self@.proto) == (module, f));
        let bb = BasicBlock::new(ir, f, "entry");
        ir.set_position(&bb);
        let ghost entry = seq![
            InstView::AppendBlock { function: f, name: "entry"@ },
            InstView::Position { block: BasicBlock { index: base as usize } },
        ];
        assert(ir@ =~= old(ir)@ + entry);
        st.clear();
        let args = f.get_args(m);
        let ghost params = module.functions[f.index as int].params;
        let n = args.len();
        let mut i: usize = 0;
        while i < n
            invariant
                i <= n,
                n == params.len(),
                m@ == module,
                module.has(f),
                params == module.functions[f.index as int].params,
                args@ == arguments(f, n as nat),
                st@ == bound(f, params, i as nat),
            decreases n - i,
        {
            let arg = args[i];
            st.insert(arg.get_name(m), arg);
            i += 1;
        }
        let ghost symbols = st@;
        let ghost body = lower_expr(self.body@, module.functions, symbols, base + 2);
        let value = match self.body.codegen(m, ir, st) {
            Ok(v) => v,
            Err(e) => {
                assert(ir@ =~= old(ir)@ + (entry + body.emitted));
                return Err(e.pushed(self.frame()));
            },
        };
        ir.build_return(value);
        assert(ir@ =~= old(ir)@ + (entry + body.emitted).push(InstView::Ret { value }));
        Ok(f)
    }
}

impl Extern {
    /// The declaration of the function `proto`.
    pub fn new(proto: Proto) -> (e: Extern)
        ensures
            e.proto == proto,
    {
        Extern { proto }
    }

    /// What a trace says of this node.
    pub fn frame(&self) -> (f: Frame)
        ensures
            f@ == (FrameView::Extern { name: self.proto.name@ }),
    {
        Frame::Extern { name: self.proto.name.clone() }
    }
}

impl Ast for Extern {
    type Output = FunctionRef;

    open spec fn lowering(
        &self,
        m: ModuleView,
        symbols: Map<Seq<char>, ValueRef>,
        base: nat,
    ) -> Effect<FunctionRef> {
        lower_proto(self@.proto, m, symbols)
    }

    /// Declares the function of the prototype, as the prototype itself does.
    fn codegen(&self, m: &mut Module, ir: &mut IRBuilder, st: &mut SymbolTable) -> (r: Result<
        FunctionRef,
        CodeGenError,
    >)
        ensures
            final(ir)@ == old(ir)@,
            r == Ok::<FunctionRef, CodeGenError>(
                FunctionRef { index: old(m)@.functions.len() as usize },
            ),
    {
        self.proto.codegen(m, ir, st)
    }
}

/// A call that follows a declaration of its callee succeeds, whether or not
/// it has as many arguments as the declaration has parameters.
///
/// Let code be generated for `decl`, and then for `call`, which names the
/// declared function. The declaration succeeds. The call fails only where
/// one of its arguments fails. Where they all generate, the last construction
/// call recorded is the call, on the first function of that name, with one
/// value for each argument of `call`.
pub proof fn lemma_call_after_extern(
    decl: Extern,
    call: Call,
    m: ModuleView,
    symbols: Map<Seq<char>, ValueRef>,
    base: nat,
)
    requires
        m.functions.len() < usize::MAX,
        call.callee@ == decl.proto.name@,
    ensures
        ({
            let declared = decl.lowering(m, symbols, base);
            let called = call.lowering(declared.module, declared.symbols, base);
            let values = lower_args(
                exprs_view(call.args@),
                call.args@.len(),
                declared.module.functions,
                symbols,
                base,
            );
            &&& declared.result is Ok
            &&& lookup(declared.module.functions, call.callee@) is Some
            &&& called.result is Ok <==> values.result is Ok
            &&& values.result matches Ok(vs) ==> {
                &&& vs.len() == call.args@.len()
                &&& called.emitted.len() > 0
                &&& called.emitted.last() == (InstView::Call {
                    function: lookup(declared.module.functions, call.callee@)->0,
                    args: vs,
                    name: "calltmp"@,
                })
            }
        }),
{
    lemma_call_after_declaration(m, decl@.proto, exprs_view(call.args@), symbols, base);
}

/// A definition that follows a declaration of the same name declares no
/// second function: it builds on the first function of that name.
///
/// Let code be generated for `decl`, and then for `func`, of the same name.
/// The function table is the same after the definition as before it, and the
/// definition returns the first function of that name. Where the table held
/// none of that name before the declaration, that is the function that the
/// declaration returned.
pub proof fn lemma_definition_after_extern(
    decl: Extern,
    func: Func,
    m: ModuleView,
    symbols: Map<Seq<char>, ValueRef>,
    base: nat,
)
    requires
        m.functions.len() < usize::MAX,
        func.proto.name@ == decl.proto.name@,
    ensures
        ({
            let declared = decl.lowering(m, symbols, base);
            let defined = func.lowering(declared.module, declared.symbols, base);
            &&& defined.module == declared.module
            &&& defined.module.functions.len() == m.functions.len() + 1
            &&& defined.result matches Ok(f) ==> Some(f) == lookup(
                declared.module.functions,
                func.proto.name@,
            )
            &&& lookup(m.functions, decl.proto.name@) is None ==> (defined.result matches Ok(f)
                ==> declared.result == Ok::<FunctionRef, CodeGenErrorView>(f))
        }),
{
    lemma_definition_after_declaration(m, decl@.proto, func@, symbols, base);
}

} // verus!
