//! The backend as the code generator sees it: a table of declared functions
//! and the ordered list of construction calls made so far.
//!
//! Nothing here builds machine-level IR. A [`Module`] remembers which functions
//! were declared and how their parameters are named; an [`IRBuilder`] remembers
//! every construction call in the order it was made. A driver hands that list
//! to the real code-generation library; handles are positions in these two
//! records, so they stay valid while the records only grow.

use vstd::hash_map::StringHashMap;
use vstd::prelude::*;
use vstd::slice::slice_to_vec;

verus! {

/// Parameter name to the value bound to it, for the function being generated.
pub type SymbolTable = StringHashMap<ValueRef>;

/// Handle of a declared function: its position in the module's function table.
#[derive(Clone, Copy, Debug, PartialEq, Eq, Structural)]
pub struct FunctionRef {
    pub index: usize,
}

/// Handle of a value: either a parameter of a declared function, or the
/// result of the construction call at a given position of the builder's list.
#[derive(Clone, Copy, Debug, PartialEq, Eq, Structural)]
pub enum ValueRef {
    Argument { function: FunctionRef, index: usize },
    Instruction { index: usize },
}

/// Handle of a basic block: the position of the call that appended it.
#[derive(Clone, Copy, Debug, PartialEq, Eq, Structural)]
pub struct BasicBlock {
    pub index: usize,
}

/// One construction call, as recorded by an [`IRBuilder`].
#[derive(Debug, PartialEq)]
pub enum Inst {
    /// A new block was appended to `function`.
    AppendBlock { function: FunctionRef, name: String },
    /// Later instructions go to the end of `block`.
    Position { block: BasicBlock },
    /// A floating-point constant, given by its decimal literal.
    Const { literal: String },
    FAdd { lhs: ValueRef, rhs: ValueRef, name: String },
    FSub { lhs: ValueRef, rhs: ValueRef, name: String },
    FMul { lhs: ValueRef, rhs: ValueRef, name: String },
    FDiv { lhs: ValueRef, rhs: ValueRef, name: String },
    Call { function: FunctionRef, args: Vec<ValueRef>, name: String },
    Ret { value: ValueRef },
}

/// Mathematical value of an [`Inst`].
pub enum InstView {
    AppendBlock { function: FunctionRef, name: Seq<char> },
    Position { block: BasicBlock },
    Const { literal: Seq<char> },
    FAdd { lhs: ValueRef, rhs: ValueRef, name: Seq<char> },
    FSub { lhs: ValueRef, rhs: ValueRef, name: Seq<char> },
    FMul { lhs: ValueRef, rhs: ValueRef, name: Seq<char> },
    FDiv { lhs: ValueRef, rhs: ValueRef, name: Seq<char> },
    Call { function: FunctionRef, args: Seq<ValueRef>, name: Seq<char> },
    Ret { value: ValueRef },
}

impl View for Inst {
    type V = InstView;

    open spec fn view(&self) -> InstView {
        match self {
            Inst::AppendBlock { function, name } => InstView::AppendBlock {
                function: *function,
                name: name@,
            },
            Inst::Position { block } => InstView::Position { block: *block },
            Inst::Const { literal } => InstView::Const { literal: literal@ },
            Inst::FAdd { lhs, rhs, name } => InstView::FAdd { lhs: *lhs, rhs: *rhs, name: name@ },
            Inst::FSub { lhs, rhs, name } => InstView::FSub { lhs: *lhs, rhs: *rhs, name: name@ },
            Inst::FMul { lhs, rhs, name } => InstView::FMul { lhs: *lhs, rhs: *rhs, name: name@ },
            Inst::FDiv { lhs, rhs, name } => InstView::FDiv { lhs: *lhs, rhs: *rhs, name: name@ },
            Inst::Call { function, args, name } => InstView::Call {
                function: *function,
                args: args@,
                name: name@,
            },
            Inst::Ret { value } => InstView::Ret { value: *value },
        }
    }
}

/// A declared function: its name and the names of its parameters, in order.
/// Every parameter and the result are floating-point numbers.
#[derive(Debug, PartialEq)]
pub struct Function {
    pub name: String,
    pub params: Vec<String>,
}

/// Mathematical value of a [`Function`].
pub struct FunctionView {
    pub name: Seq<char>,
    pub params: Seq<Seq<char>>,
}

impl View for Function {
    type V = FunctionView;

    open spec fn view(&self) -> FunctionView {
        FunctionView { name: self.name@, params: names_view(self.params@) }
    }
}

/// The character sequences of a list of strings.
pub open spec fn names_view(names: Seq<String>) -> Seq<Seq<char>> {
    Seq::new(names.len(), |i: int| names[i]@)
}

/// The first function of the table that is called `name`, if there is one.
pub open spec fn lookup(functions: Seq<FunctionView>, name: Seq<char>) -> Option<FunctionRef>
    decreases functions.len(),
{
    if functions.len() == 0 {
        None
    } else {
        match lookup(functions.drop_last(), name) {
            Some(f) => Some(f),
            None => if functions.last().name == name {
                Some(FunctionRef { index: (functions.len() - 1) as usize })
            } else {
                None
            },
        }
    }
}

/// A function found by [`lookup`] is in the table, has the name asked for,
/// and no function before it has that name.
pub proof fn lemma_lookup_first(functions: Seq<FunctionView>, name: Seq<char>)
    requires
        functions.len() <= usize::MAX,
    ensures
        match lookup(functions, name) {
            Some(f) => {
                &&& f.index < functions.len()
                &&& functions[f.index as int].name == name
                &&& forall|j: int| 0 <= j < f.index ==> functions[j].name != name
            },
            None => forall|j: int| 0 <= j < functions.len() ==> functions[j].name != name,
        },
    decreases functions.len(),
{
    if functions.len() > 0 {
        let front = functions.drop_last();
        lemma_lookup_first(front, name);
        assert(forall|j: int| 0 <= j < front.len() ==> front[j] == functions[j]);
        match lookup(front, name) {
            Some(f) => {
                assert(front[f.index as int] == functions[f.index as int]);
            },
            None => {
                assert forall|j: int| 0 <= j < functions.len() - 1 implies functions[j].name
                    != name by {
                    assert(front[j] == functions[j]);
                }
            },
        }
    }
}

/// Whoever comes first with the name is what [`lookup`] finds.
pub proof fn lemma_lookup_at(functions: Seq<FunctionView>, name: Seq<char>, i: int)
    requires
        functions.len() <= usize::MAX,
        0 <= i < functions.len(),
        functions[i].name == name,
        forall|j: int| 0 <= j < i ==> functions[j].name != name,
    ensures
        lookup(functions, name) == Some(FunctionRef { index: i as usize }),
{
    lemma_lookup_first(functions, name);
}

/// The names of `count` parameters that were not named yet.
pub open spec fn unnamed(count: nat) -> Seq<Seq<char>> {
    Seq::new(count, |i: int| Seq::<char>::empty())
}

/// The function table of one compilation session.
pub struct Module {
    name: String,
    functions: Vec<Function>,
}

/// Mathematical value of a [`Module`].
pub struct ModuleView {
    pub name: Seq<char>,
    pub functions: Seq<FunctionView>,
}

impl View for Module {
    type V = ModuleView;

    closed spec fn view(&self) -> ModuleView {
        ModuleView {
            name: self.name@,
            functions: Seq::new(self.functions@.len(), |i: int| self.functions@[i]@),
        }
    }
}

impl ModuleView {
    /// Whether `f` is a handle into this table.
    pub open spec fn has(self, f: FunctionRef) -> bool {
        f.index < self.functions.len()
    }

    /// Whether `v` is a parameter of a function of this table.
    pub open spec fn has_argument(self, v: ValueRef) -> bool {
        match v {
            ValueRef::Argument { function, index } => self.has(function) && index
                < self.functions[function.index as int].params.len(),
            ValueRef::Instruction { .. } => false,
        }
    }

    /// This table with parameter `index` of function `f` called `name`.
    pub open spec fn renamed(self, f: FunctionRef, index: int, name: Seq<char>) -> ModuleView {
        let old_fn = self.functions[f.index as int];
        ModuleView {
            name: self.name,
            functions: self.functions.update(
                f.index as int,
                FunctionView { name: old_fn.name, params: old_fn.params.update(index, name) },
            ),
        }
    }

    /// This table with one more function.
    pub open spec fn defined(self, name: Seq<char>, params: Seq<Seq<char>>) -> ModuleView {
        ModuleView { name: self.name, functions: self.functions.push(FunctionView { name, params }) }
    }

    /// This table with one more function, whose parameters are not named yet.
    pub open spec fn declared(self, name: Seq<char>, param_count: nat) -> ModuleView {
        self.defined(name, unnamed(param_count))
    }
}

impl Module {
    /// An empty table called `name`.
    pub fn new(name: &str) -> (m: Module)
        ensures
            m@.name == name@,
            m@.functions == Seq::<FunctionView>::empty(),
    {
        let m = Module { name: name.to_owned(), functions: Vec::new() };
        assert(m@.functions =~= Seq::<FunctionView>::empty());
        m
    }

    /// The first declared function called `name`.
    pub fn get_function(&self, name: &str) -> (found: Option<FunctionRef>)
        ensures
            found == lookup(self@.functions, name@),
            found matches Some(f) ==> self@.has(f) && self@.functions[f.index as int].name == name@,
    {
        let wanted = name.to_owned();
        let n = self.functions.len();
        let mut i: usize = 0;
        while i < n
            invariant
                n == self.functions.len(),
                i <= n,
                wanted@ == name@,
                forall|j: int| 0 <= j < i ==> self@.functions[j].name != name@,
            decreases n - i,
        {
            if self.functions[i].name == wanted {
                proof {
                    lemma_lookup_at(self@.functions, name@, i as int);
                }
                return Some(FunctionRef { index: i });
            }
            i += 1;
        }
        proof {
            lemma_lookup_first(self@.functions, name@);
        }
        None
    }

    /// Declares a function called `name` with `param_count` parameters, none
    /// of them named yet. A function of that name may exist already: it stays
    /// the one that [`Module::get_function`] finds.
    pub fn create_function(&mut self, name: &str, param_count: usize) -> (f: FunctionRef)
        ensures
            final(self)@ == old(self)@.declared(name@, param_count as nat),
            f.index == old(self)@.functions.len(),
    {
        let index = self.functions.len();
        let mut params: Vec<String> = Vec::new();
        let mut i: usize = 0;
        while i < param_count
            invariant
                i <= param_count,
                params.len() == i,
                forall|j: int| 0 <= j < i ==> params@[j]@ == Seq::<char>::empty(),
            decreases param_count - i,
        {
            params.push(String::new());
            i += 1;
        }
        let function = Function { name: name.to_owned(), params };
        assert(function@.params =~= unnamed(param_count as nat));
        self.functions.push(function);
        assert(self@.functions =~= old(self)@.functions.push(function@));
        FunctionRef { index }
    }

    /// How many functions were declared.
    pub fn len(&self) -> (n: usize)
        ensures
            n == self@.functions.len(),
    {
        self.functions.len()
    }

    /// The declared function behind a handle.
    pub fn function(&self, f: FunctionRef) -> (function: &Function)
        requires
            self@.has(f),
        ensures
            function@ == self@.functions[f.index as int],
    {
        &self.functions[f.index]
    }

    /// The name the table was made with.
    pub fn name(&self) -> (name: &str)
        ensures
            name@ == self@.name,
    {
        self.name.as_str()
    }
}

impl FunctionRef {
    /// Number of parameters of the function.
    pub fn num_args(&self, m: &Module) -> (n: usize)
        requires
            m@.has(*self),
        ensures
            n == m@.functions[self.index as int].params.len(),
    {
        m.functions[self.index].params.len()
    }

    /// The parameters of the function, in order.
    pub fn get_args(&self, m: &Module) -> (args: Vec<ValueRef>)
        requires
            m@.has(*self),
        ensures
            args@ == arguments(*self, m@.functions[self.index as int].params.len()),
    {
        let n = self.num_args(m);
        let mut args: Vec<ValueRef> = Vec::new();
        let mut i: usize = 0;
        while i < n
            invariant
                i <= n,
                args@ == arguments(*self, i as nat),
            decreases n - i,
        {
            args.push(ValueRef::Argument { function: *self, index: i });
            assert(args@ =~= arguments(*self, (i + 1) as nat));
            i += 1;
        }
        args
    }
}

/// The first `count` parameters of `f`, in order.
pub open spec fn arguments(f: FunctionRef, count: nat) -> Seq<ValueRef> {
    Seq::new(count, |i: int| ValueRef::Argument { function: f, index: i as usize })
}

impl ValueRef {
    /// The name of a parameter.
    pub fn get_name(&self, m: &Module) -> (name: String)
        requires
            m@.has_argument(*self),
        ensures
            name@ == m@.functions[self->function.index as int].params[self->Argument_index as int],
    {
        match self {
            ValueRef::Argument { function, index } => {
                m.functions[function.index].params[*index].clone()
            },
            ValueRef::Instruction { .. } => String::new(),
        }
    }

    /// Names a parameter. The handle itself does not change.
    pub fn set_name(&mut self, m: &mut Module, name: &str)
        requires
            old(m)@.has_argument(*old(self)),
        ensures
            *final(self) == *old(self),
            final(m)@ == old(m)@.renamed(
                old(self)->function,
                old(self)->Argument_index as int,
                name@,
            ),
    {
        match self {
            ValueRef::Argument { function, index } => {
                let f = function.index;
                let i = *index;
                m.functions[f].params[i] = name.to_owned();
                assert(m@.functions[f as int].params =~= old(m)@.functions[f as int].params.update(
                    i as int,
                    name@,
                ));
                assert(m@.functions =~= old(m)@.renamed(
                    FunctionRef { index: f },
                    i as int,
                    name@,
                ).functions);
            },
            ValueRef::Instruction { .. } => {},
        }
    }
}

/// The construction calls of one compilation session, in the order made.
pub struct IRBuilder {
    insts: Vec<Inst>,
}

impl View for IRBuilder {
    type V = Seq<InstView>;

    closed spec fn view(&self) -> Seq<InstView> {
        Seq::new(self.insts@.len(), |i: int| self.insts@[i]@)
    }
}

impl IRBuilder {
    /// A builder that has recorded nothing.
    pub fn new() -> (ir: IRBuilder)
        ensures
            ir@ == Seq::<InstView>::empty(),
    {
        let ir = IRBuilder { insts: Vec::new() };
        assert(ir@ =~= Seq::<InstView>::empty());
        ir
    }

    /// Records `inst` and returns its position.
    fn emit(&mut self, inst: Inst) -> (index: usize)
        ensures
            final(self)@ == old(self)@.push(inst@),
            index == old(self)@.len(),
    {
        let index = self.insts.len();
        self.insts.push(inst);
        assert(self@ =~= old(self)@.push(inst@));
        index
    }

    /// Floating-point addition of two values.
    pub fn build_fadd(&mut self, lhs: ValueRef, rhs: ValueRef, name: &str) -> (v: ValueRef)
        ensures
            final(self)@ == old(self)@.push(InstView::FAdd { lhs, rhs, name: name@ }),
            v == (ValueRef::Instruction { index: old(self)@.len() as usize }),
    {
        let index = self.emit(Inst::FAdd { lhs, rhs, name: name.to_owned() });
        ValueRef::Instruction { index }
    }

    /// Floating-point subtraction of two values.
    pub fn build_fsub(&mut self, lhs: ValueRef, rhs: ValueRef, name: &str) -> (v: ValueRef)
        ensures
            final(self)@ == old(self)@.push(InstView::FSub { lhs, rhs, name: name@ }),
            v == (ValueRef::Instruction { index: old(self)@.len() as usize }),
    {
        let index = self.emit(Inst::FSub { lhs, rhs, name: name.to_owned() });
        ValueRef::Instruction { index }
    }

    /// Floating-point multiplication of two values.
    pub fn build_fmul(&mut self, lhs: ValueRef, rhs: ValueRef, name: &str) -> (v: ValueRef)
        ensures
            final(self)@ == old(self)@.push(InstView::FMul { lhs, rhs, name: name@ }),
            v == (ValueRef::Instruction { index: old(self)@.len() as usize }),
    {
        let index = self.emit(Inst::FMul { lhs, rhs, name: name.to_owned() });
        ValueRef::Instruction { index }
    }

    /// Floating-point division of two values. A zero divisor is not looked for.
    pub fn build_fdiv(&mut self, lhs: ValueRef, rhs: ValueRef, name: &str) -> (v: ValueRef)
        ensures
            final(self)@ == old(self)@.push(InstView::FDiv { lhs, rhs, name: name@ }),
            v == (ValueRef::Instruction { index: old(self)@.len() as usize }),
    {
        let index = self.emit(Inst::FDiv { lhs, rhs, name: name.to_owned() });
        ValueRef::Instruction { index }
    }

    /// A call of `func` with `args`. The number of arguments is not held
    /// against the number of parameters the function was declared with.
    pub fn build_call(&mut self, func: FunctionRef, args: &[ValueRef], name: &str) -> (v: ValueRef)
        ensures
            final(self)@ == old(self)@.push(
                InstView::Call { function: func, args: args@, name: name@ },
            ),
            v == (ValueRef::Instruction { index: old(self)@.len() as usize }),
    {
        let index = self.emit(
            Inst::Call { function: func, args: slice_to_vec(args), name: name.to_owned() },
        );
        ValueRef::Instruction { index }
    }

    /// Returns `ret` from the function being built.
    pub fn build_return(&mut self, ret: ValueRef) -> (v: ValueRef)
        ensures
            final(self)@ == old(self)@.push(InstView::Ret { value: ret }),
            v == (ValueRef::Instruction { index: old(self)@.len() as usize }),
    {
        let index = self.emit(Inst::Ret { value: ret });
        ValueRef::Instruction { index }
    }

    /// Later instructions go to the end of `bb`.
    pub fn set_position(&mut self, bb: &BasicBlock)
        ensures
            final(self)@ == old(self)@.push(InstView::Position { block: *bb }),
    {
        let _ = self.emit(Inst::Position { block: *bb });
    }

    /// How many construction calls were recorded.
    pub fn len(&self) -> (n: usize)
        ensures
            n == self@.len(),
    {
        self.insts.len()
    }

    /// The construction call at `index`.
    pub fn inst(&self, index: usize) -> (inst: &Inst)
        requires
            index < self@.len(),
        ensures
            inst@ == self@[index as int],
    {
        &self.insts[index]
    }
}

impl BasicBlock {
    /// Appends a block called `name` to `func`.
    pub fn new(ir: &mut IRBuilder, func: FunctionRef, name: &str) -> (bb: BasicBlock)
        ensures
            final(ir)@ == old(ir)@.push(InstView::AppendBlock { function: func, name: name@ }),
            bb.index == old(ir)@.len(),
    {
        let index = ir.emit(Inst::AppendBlock { function: func, name: name.to_owned() });
        BasicBlock { index }
    }
}

/// The floating-point constant written as `literal`.
pub fn const_f64(ir: &mut IRBuilder, literal: &str) -> (v: ValueRef)
    ensures
        final(ir)@ == old(ir)@.push(InstView::Const { literal: literal@ }),
        v == (ValueRef::Instruction { index: old(ir)@.len() as usize }),
{
    let index = ir.emit(Inst::Const { literal: literal.to_owned() });
    ValueRef::Instruction { index }
}

} // verus!
