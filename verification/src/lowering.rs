//! What code generation does, stated over the values of the syntax tree and
//! of the backend's records: which construction calls a node records, in
//! which order, what it declares, and which handle or failure it ends with.

use crate::ast::{
    CodeGenError, CodeGenErrorView, ErrorKindView, ExprView, FrameView, FuncView, Op, ProtoView,
};
use crate::llvm::{
    lemma_lookup_first, lookup, BasicBlock, FunctionRef, FunctionView, InstView, ModuleView,
    ValueRef,
};
use vstd::prelude::*;

verus! {

/// What generating code for an expression does: the construction calls it
/// records, in order, and the value or the failure it ends with. On a failure
/// the calls recorded before it stay recorded.
pub struct Lowered<T> {
    pub emitted: Seq<InstView>,
    pub result: Result<T, CodeGenErrorView>,
}

/// What generating code for any node does to a session.
pub struct Effect<T> {
    /// The function table afterwards.
    pub module: ModuleView,
    /// The symbol table afterwards.
    pub symbols: Map<Seq<char>, ValueRef>,
    /// The construction calls recorded, in order.
    pub emitted: Seq<InstView>,
    /// The handle that comes back, or the failure.
    pub result: Result<T, CodeGenErrorView>,
}

/// The effect of a node that records `lowered` and leaves the function
/// table and the symbol table as they are.
pub open spec fn recording<T>(
    m: ModuleView,
    symbols: Map<Seq<char>, ValueRef>,
    lowered: Lowered<T>,
) -> Effect<T> {
    Effect { module: m, symbols, emitted: lowered.emitted, result: lowered.result }
}

/// The result of a code generator, with the failure taken by its value.
pub open spec fn outcome<T>(r: Result<T, CodeGenError>) -> Result<T, CodeGenErrorView> {
    match r {
        Ok(v) => Ok(v),
        Err(e) => Err(e@),
    }
}

/// The construction call for `lhs op rhs`, with the operator's name hint.
pub open spec fn binary_inst(op: Op, lhs: ValueRef, rhs: ValueRef) -> InstView {
    match op {
        Op::Add => InstView::FAdd { lhs, rhs, name: "addtmp"@ },
        Op::Sub => InstView::FSub { lhs, rhs, name: "subtmp"@ },
        Op::Mul => InstView::FMul { lhs, rhs, name: "multmp"@ },
        Op::Div => InstView::FDiv { lhs, rhs, name: "divtmp"@ },
    }
}

/// The handle of the value that the construction call at `index` makes.
pub open spec fn value_at(index: nat) -> ValueRef {
    ValueRef::Instruction { index: index as usize }
}

/// Code generation for an expression, where `functions` are declared,
/// `symbols` are in scope and `base` construction calls were recorded before.
///
/// A variable is read from `symbols`. A number is one constant. A binary
/// operation generates its left side, then its right side, then the operation.
/// A call looks its callee up before any argument is generated, generates the
/// arguments from left to right, and passes them on whatever their number. A
/// failure in a child ends the node with that failure, the node added to its
/// trace.
pub open spec fn lower_expr(
    e: ExprView,
    functions: Seq<FunctionView>,
    symbols: Map<Seq<char>, ValueRef>,
    base: nat,
) -> Lowered<ValueRef>
    decreases e, 0nat,
{
    match e {
        ExprView::Variable { name } => Lowered {
            emitted: Seq::empty(),
            result: if symbols.contains_key(name) {
                Ok(symbols[name])
            } else {
                Err(CodeGenErrorView::new(ErrorKindView::UndefinedVariable(name), e.frame()))
            },
        },
        ExprView::Number { literal } => Lowered {
            emitted: seq![InstView::Const { literal }],
            result: Ok(value_at(base)),
        },
        ExprView::Binary { op, lhs, rhs } => {
            let left = lower_expr(*lhs, functions, symbols, base);
            match left.result {
                Err(failure) => Lowered {
                    emitted: left.emitted,
                    result: Err(failure.pushed(e.frame())),
                },
                Ok(l) => {
                    let right = lower_expr(*rhs, functions, symbols, base + left.emitted.len());
                    let emitted = left.emitted + right.emitted;
                    match right.result {
                        Err(failure) => Lowered { emitted, result: Err(failure.pushed(e.frame())) },
                        Ok(r) => Lowered {
                            emitted: emitted.push(binary_inst(op, l, r)),
                            result: Ok(value_at(base + emitted.len())),
                        },
                    }
                },
            }
        },
        ExprView::Call { callee, args } => match lookup(functions, callee) {
            None => Lowered {
                emitted: Seq::empty(),
                result: Err(
                    CodeGenErrorView::new(ErrorKindView::UnknownFunction(callee), e.frame()),
                ),
            },
            Some(function) => {
                let values = lower_args(args, args.len(), functions, symbols, base);
                match values.result {
                    Err(failure) => Lowered {
                        emitted: values.emitted,
                        result: Err(failure.pushed(e.frame())),
                    },
                    Ok(vs) => Lowered {
                        emitted: values.emitted.push(
                            InstView::Call { function, args: vs, name: "calltmp"@ },
                        ),
                        result: Ok(value_at(base + values.emitted.len())),
                    },
                }
            },
        },
    }
}

/// Code generation for the first `n` of `args`, from left to right: their
/// values, or the failure of the first that fails, after which none is tried.
pub open spec fn lower_args(
    args: Seq<ExprView>,
    n: nat,
    functions: Seq<FunctionView>,
    symbols: Map<Seq<char>, ValueRef>,
    base: nat,
) -> Lowered<Seq<ValueRef>>
    decreases args, n,
{
    if n == 0 || n > args.len() {
        Lowered { emitted: Seq::empty(), result: Ok(Seq::empty()) }
    } else {
        let front = lower_args(args, (n - 1) as nat, functions, symbols, base);
        match front.result {
            Err(_) => front,
            Ok(vs) => {
                let last = lower_expr(
                    args[n - 1],
                    functions,
                    symbols,
                    base + front.emitted.len(),
                );
                Lowered {
                    emitted: front.emitted + last.emitted,
                    result: match last.result {
                        Ok(v) => Ok(vs.push(v)),
                        Err(failure) => Err(failure),
                    },
                }
            },
        }
    }
}

/// Code generation for a prototype: one more function in the table, with
/// the parameter names of the prototype. It always succeeds, records no
/// construction call, and returns the new function even where the table held
/// one of that name.
pub open spec fn lower_proto(
    proto: ProtoView,
    m: ModuleView,
    symbols: Map<Seq<char>, ValueRef>,
) -> Effect<FunctionRef> {
    Effect {
        module: m.defined(proto.name, proto.args),
        symbols,
        emitted: Seq::empty(),
        result: Ok(FunctionRef { index: m.functions.len() as usize }),
    }
}

/// The symbol table after the first `n` of `params` were bound, in order, to
/// the parameters of `f`. Where a name comes twice, the later parameter has it.
pub open spec fn bound(f: FunctionRef, params: Seq<Seq<char>>, n: nat) -> Map<Seq<char>, ValueRef>
    decreases n,
{
    if n == 0 || n > params.len() {
        Map::empty()
    } else {
        bound(f, params, (n - 1) as nat).insert(
            params[n - 1],
            ValueRef::Argument { function: f, index: (n - 1) as usize },
        )
    }
}

/// The function that a definition with prototype `proto` builds on, and the
/// function table with it: the first declared function of that name where
/// there is one, else a new function declared from `proto`.
pub open spec fn resolve(m: ModuleView, proto: ProtoView) -> (ModuleView, FunctionRef) {
    match lookup(m.functions, proto.name) {
        Some(f) => (m, f),
        None => (
            m.defined(proto.name, proto.args),
            FunctionRef { index: m.functions.len() as usize },
        ),
    }
}

/// Code generation for a function definition, up to the point where the
/// backend is asked to verify the function; `base` construction calls were
/// recorded before.
///
/// The function is resolved or declared. An entry block is appended to it and
/// the builder placed there. The symbol table is emptied and filled from the
/// parameters of the resolved function, which are those of its first
/// declaration. The body is generated in that scope, and its value returned.
/// Where the body fails, what was declared and recorded stays, and the
/// definition is added to the trace.
pub open spec fn lower_func(func: FuncView, m: ModuleView, base: nat) -> Effect<FunctionRef> {
    let (module, f) = resolve(m, func.proto);
    let params = module.functions[f.index as int].params;
    let symbols = bound(f, params, params.len());
    let entry = seq![
        InstView::AppendBlock { function: f, name: "entry"@ },
        InstView::Position { block: BasicBlock { index: base as usize } },
    ];
    let body = lower_expr(func.body, module.functions, symbols, base + 2);
    match body.result {
        Ok(value) => Effect {
            module,
            symbols,
            emitted: (entry + body.emitted).push(InstView::Ret { value }),
            result: Ok(f),
        },
        Err(failure) => Effect {
            module,
            symbols,
            emitted: entry + body.emitted,
            result: Err(failure.pushed(FrameView::Func { name: func.proto.name })),
        },
    }
}

/// The end of a definition's code generation, once the backend has given
/// its verdict on the function `f`.
pub open spec fn conclude(func: FuncView, f: FunctionRef, passed: bool) -> Result<
    FunctionRef,
    CodeGenErrorView,
> {
    if passed {
        Ok(f)
    } else {
        Err(
            CodeGenErrorView::new(
                ErrorKindView::VerificationFailure,
                FrameView::Func { name: func.proto.name },
            ),
        )
    }
}

/// Once an argument has failed, the arguments after it change nothing.
pub proof fn lemma_lower_args_failed(
    args: Seq<ExprView>,
    k: nat,
    n: nat,
    functions: Seq<FunctionView>,
    symbols: Map<Seq<char>, ValueRef>,
    base: nat,
)
    requires
        k <= n <= args.len(),
        lower_args(args, k, functions, symbols, base).result is Err,
    ensures
        lower_args(args, n, functions, symbols, base) == lower_args(
            args,
            k,
            functions,
            symbols,
            base,
        ),
    decreases n - k,
{
    if k < n {
        lemma_lower_args_failed(args, k, (n - 1) as nat, functions, symbols, base);
    }
}

/// Arguments that all generate give one value each.
pub proof fn lemma_lower_args_len(
    args: Seq<ExprView>,
    n: nat,
    functions: Seq<FunctionView>,
    symbols: Map<Seq<char>, ValueRef>,
    base: nat,
)
    requires
        n <= args.len(),
    ensures
        lower_args(args, n, functions, symbols, base).result matches Ok(values) ==> values.len()
            == n,
    decreases n,
{
    if n > 0 {
        lemma_lower_args_len(args, (n - 1) as nat, functions, symbols, base);
    }
}

/// A variable that is not in scope fails as undefined, with itself as the
/// whole trace, and records nothing; one that is in scope is its value.
pub proof fn lemma_variable(
    name: Seq<char>,
    functions: Seq<FunctionView>,
    symbols: Map<Seq<char>, ValueRef>,
    base: nat,
)
    ensures
        ({
            let lowered = lower_expr(ExprView::Variable { name }, functions, symbols, base);
            &&& lowered.emitted.len() == 0
            &&& symbols.contains_key(name) ==> lowered.result == Ok::<ValueRef, CodeGenErrorView>(
                symbols[name],
            )
            &&& !symbols.contains_key(name) ==> {
                &&& lowered.result is Err
                &&& lowered.result->Err_0.kind == ErrorKindView::UndefinedVariable(name)
                &&& lowered.result->Err_0.trace == seq![FrameView::Variable { name }]
                &&& lowered.result->Err_0.trace.len() == 1
            }
        }),
{
}

/// A call of a function that was just declared finds it, however many
/// arguments the call has and however many parameters the declaration had.
///
/// Let a declaration of `proto` be generated in a table `m`, and then a call
/// of that name with `args`. The call fails only where one of its arguments
/// fails, and then with that argument's failure. Where they all generate, the
/// call is recorded last, with as many values as the call has arguments, on
/// the first function of that name.
pub proof fn lemma_call_after_declaration(
    m: ModuleView,
    proto: ProtoView,
    args: Seq<ExprView>,
    symbols: Map<Seq<char>, ValueRef>,
    base: nat,
)
    requires
        m.functions.len() < usize::MAX,
    ensures
        ({
            let declared = lower_proto(proto, m, symbols).module;
            let call = ExprView::Call { callee: proto.name, args };
            let values = lower_args(args, args.len(), declared.functions, symbols, base);
            let lowered = lower_expr(call, declared.functions, symbols, base);
            &&& lookup(declared.functions, proto.name) matches Some(f) && declared.has(f)
            &&& lowered.result is Ok <==> values.result is Ok
            &&& values.result matches Err(failure) ==> lowered.result == Err::<
                ValueRef,
                CodeGenErrorView,
            >(failure.pushed(call.frame()))
            &&& values.result matches Ok(vs) ==> {
                &&& vs.len() == args.len()
                &&& lowered.emitted.len() > 0
                &&& lowered.emitted.last() == (InstView::Call {
                    function: lookup(declared.functions, proto.name)->0,
                    args: vs,
                    name: "calltmp"@,
                })
            }
        }),
{
    let declared = m.defined(proto.name, proto.args);
    assert(declared.functions.drop_last() =~= m.functions);
    lemma_lookup_first(declared.functions, proto.name);
    lemma_lower_args_len(args, args.len(), declared.functions, symbols, base);
}

/// A definition that follows a declaration of the same name builds on a
/// function that exists, and declares none.
///
/// Let a declaration of `proto` be generated in a table `m`, and then a
/// definition `func` of the same name. The table is the same after the
/// definition as before it. The definition builds on the first function of
/// that name, which is the one that the declaration returned where `m` had
/// none of that name.
pub proof fn lemma_definition_after_declaration(
    m: ModuleView,
    proto: ProtoView,
    func: FuncView,
    symbols: Map<Seq<char>, ValueRef>,
    base: nat,
)
    requires
        m.functions.len() < usize::MAX,
        func.proto.name == proto.name,
    ensures
        ({
            let declaration = lower_proto(proto, m, symbols);
            let definition = lower_func(func, declaration.module, base);
            let built_on = resolve(declaration.module, func.proto).1;
            &&& definition.module == declaration.module
            &&& lookup(declaration.module.functions, proto.name) == Some(built_on)
            &&& definition.result matches Ok(f) ==> f == built_on
            &&& lookup(m.functions, proto.name) is None ==> declaration.result == Ok::<
                FunctionRef,
                CodeGenErrorView,
            >(built_on)
        }),
{
    let declared = m.defined(proto.name, proto.args);
    assert(declared.functions.drop_last() =~= m.functions);
    lemma_lookup_first(declared.functions, proto.name);
}

} // verus!
