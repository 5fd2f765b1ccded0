//! The expression compiler: walks a syntax tree and emits native operations
//! into the routine at hand, consulting and extending the symbol table.
//!
//! Variables and routines have name spaces of their own.  A symbol in
//! operator position names a routine of the unit or, failing that, an
//! intrinsic of the host; of several routines of one name the latest is
//! called.  Anywhere else a symbol names a variable.
//!
//! The definition of a function makes a routine where it is the whole
//! input.  Its parameters are visible in its body alone, and its body cannot
//! reach a storage location of another routine.  Everything else is compiled
//! into the anonymous routine of the unit, so that the variables that were
//! defined before are at hand when the routine runs.

use vstd::prelude::*;
use crate::expr::{views_of, Expr, SyntaxNode};
use crate::llvm::{find_intrinsic, host_intrinsic};
use crate::symbols::SymbolTable;
use crate::unit::{
    functions_sound, lookup_routine, op_sound, routine_sound, texts_of, unit_sound, Callee,
    CalleeView, Location, Op, OpView, Operator, RoutineView, Unit, ENTRY,
};

verus! {

broadcast use vstd::std_specs::vec::axiom_vec_index_decreases;

/// Why an input could not be compiled.
#[derive(Debug, PartialEq, Eq)]
pub enum CompileError {
    /// A list is empty or does not start with a symbol.
    ExpectedOperator,
    /// `define` without exactly two arguments, or an arithmetic operator
    /// without any.
    ArityError,
    /// The first argument of `define` is neither a symbol nor a list that
    /// starts with one.
    InvalidDefineTarget,
    /// A parameter of a function definition is no symbol, or occurs twice.
    InvalidParameterList,
    /// A symbol that is not bound.
    UndefinedVariable(String),
    /// An operator that is neither a routine of the unit nor an intrinsic.
    UnknownOperator(String),
    /// The emitted routine is not well formed.
    InvalidFunction,
}

/// The value of a compile error.
pub enum CompileErrorView {
    ExpectedOperator,
    ArityError,
    InvalidDefineTarget,
    InvalidParameterList,
    UndefinedVariable(Seq<char>),
    UnknownOperator(Seq<char>),
    InvalidFunction,
}

impl View for CompileError {
    type V = CompileErrorView;

    open spec fn view(&self) -> CompileErrorView {
        match self {
            CompileError::ExpectedOperator => CompileErrorView::ExpectedOperator,
            CompileError::ArityError => CompileErrorView::ArityError,
            CompileError::InvalidDefineTarget => CompileErrorView::InvalidDefineTarget,
            CompileError::InvalidParameterList => CompileErrorView::InvalidParameterList,
            CompileError::UndefinedVariable(name) => CompileErrorView::UndefinedVariable(name@),
            CompileError::UnknownOperator(name) => CompileErrorView::UnknownOperator(name@),
            CompileError::InvalidFunction => CompileErrorView::InvalidFunction,
        }
    }
}

/// The state of a compile pass: the unit, the names in scope, and the routine
/// that receives the code.
pub struct Compiler {
    pub unit: Unit,
    pub global_scope: SymbolTable,
    pub routine: usize,
}

/// The value of a compiler.
pub struct CompilerView {
    pub unit: Seq<RoutineView>,
    pub scope: Map<Seq<char>, Location>,
    pub routine: usize,
}

impl View for Compiler {
    type V = CompilerView;

    open spec fn view(&self) -> CompilerView {
        CompilerView { unit: self.unit@, scope: self.global_scope@, routine: self.routine }
    }
}

impl CompilerView {
    /// The routine at hand is one of the unit.
    pub open spec fn wf(self) -> bool {
        self.routine < self.unit.len()
    }

    /// The index of the value that the next operation will define.
    pub open spec fn next(self) -> usize {
        self.unit[self.routine as int].ops.len() as usize
    }

    /// The state after one more operation of the routine at hand.
    pub open spec fn emit(self, op: OpView) -> CompilerView {
        CompilerView {
            unit: self.unit.update(
                self.routine as int,
                self.unit[self.routine as int].with_op(op),
            ),
            ..self
        }
    }

    /// The state with `name` bound to `location`.
    pub open spec fn bind(self, name: Seq<char>, location: Location) -> CompilerView {
        CompilerView { scope: self.scope.insert(name, location), ..self }
    }

    /// The state with the routine at hand returning `value`.
    pub open spec fn returning(self, value: usize) -> CompilerView {
        CompilerView {
            unit: self.unit.update(
                self.routine as int,
                self.unit[self.routine as int].returning(value),
            ),
            ..self
        }
    }
}

/// The arithmetic operator that a symbol stands for, if it is one.
pub open spec fn arithmetic(op: Seq<char>) -> Option<Operator> {
    if op == "+"@ {
        Some(Operator::Add)
    } else if op == "-"@ {
        Some(Operator::Sub)
    } else if op == "*"@ {
        Some(Operator::Mul)
    } else if op == "/"@ {
        Some(Operator::Div)
    } else if op == "%"@ {
        Some(Operator::Rem)
    } else {
        None
    }
}

/// What an operator that is no routine of the unit resolves to, given whether
/// the host has an intrinsic of that name.
pub open spec fn host_callee_spec(name: Seq<char>, found: bool) -> Result<
    CalleeView,
    CompileErrorView,
> {
    if found {
        Ok(CalleeView::Intrinsic(name))
    } else {
        Err(CompileErrorView::UnknownOperator(name))
    }
}

/// What an operator resolves to: a routine of the unit first, an intrinsic of
/// the host second.
pub open spec fn resolve(unit: Seq<RoutineView>, name: Seq<char>) -> Result<
    CalleeView,
    CompileErrorView,
> {
    match lookup_routine(unit, name, unit.len() as int) {
        Some(r) => Ok(CalleeView::Routine(r)),
        None => host_callee_spec(name, host_intrinsic(name)),
    }
}

/// The operator of a list: its first element, which must be a symbol.
pub open spec fn operator_of(items: Seq<SyntaxNode>) -> Result<Seq<char>, CompileErrorView> {
    if items.len() > 0 && items[0] is Symbol {
        Ok(items[0]->Symbol_0)
    } else {
        Err(CompileErrorView::ExpectedOperator)
    }
}

/// The parameter names of a signature `(name param...)`.
pub open spec fn parameters(signature: Seq<SyntaxNode>) -> Seq<Seq<char>> {
    Seq::new((signature.len() - 1) as nat, |i: int| signature[i + 1]->Symbol_0)
}

/// Whether no name occurs twice.
pub open spec fn distinct(names: Seq<Seq<char>>) -> bool {
    forall|i: int, j: int| 0 <= i < j < names.len() ==> names[i] != names[j]
}

/// The name and the parameters of a function signature `(name param...)`:
/// all of them symbols, the parameters distinct.
pub open spec fn signature_of(signature: Seq<SyntaxNode>) -> Result<
    (Seq<char>, Seq<Seq<char>>),
    CompileErrorView,
> {
    if signature.len() == 0 || !(signature[0] is Symbol) {
        Err(CompileErrorView::InvalidDefineTarget)
    } else if !(forall|i: int| 1 <= i < signature.len() ==> (#[trigger] signature[i]) is Symbol) {
        Err(CompileErrorView::InvalidParameterList)
    } else if !distinct(parameters(signature)) {
        Err(CompileErrorView::InvalidParameterList)
    } else {
        Ok((signature[0]->Symbol_0, parameters(signature)))
    }
}

/// A left fold of `values[from..]` onto `acc` with one operation per value.
pub open spec fn fold(
    state: CompilerView,
    operator: Operator,
    values: Seq<usize>,
    acc: usize,
    from: int,
) -> (CompilerView, usize)
    decreases values.len() - from,
{
    if from < 0 || from >= values.len() {
        (state, acc)
    } else {
        fold(
            state.emit(OpView::Arith(operator, acc, values[from])),
            operator,
            values,
            state.next(),
            from + 1,
        )
    }
}

/// What compiling `node` in `state` gives: the state with the operations of
/// `node` emitted, and the value that stands for `node`; or the first error.
pub open spec fn compile_expr_spec(node: SyntaxNode, state: CompilerView) -> Result<
    (CompilerView, usize),
    CompileErrorView,
>
    decreases node, 0nat,
{
    match node {
        SyntaxNode::Integer(n) => Ok((state.emit(OpView::Integer(n)), state.next())),
        SyntaxNode::Float(text) => Ok((state.emit(OpView::Decimal(text)), state.next())),
        SyntaxNode::Symbol(name) => if state.scope.contains_key(name) {
            Ok((state.emit(OpView::Load(state.scope[name])), state.next()))
        } else {
            Err(CompileErrorView::UndefinedVariable(name))
        },
        SyntaxNode::List(items) => match operator_of(items) {
            Err(error) => Err(error),
            Ok(op) => if op == "define"@ {
                compile_define_spec(items, state)
            } else {
                match compile_args_spec(items, 1, state, Seq::empty()) {
                    Err(error) => Err(error),
                    Ok((after, values)) => match arithmetic(op) {
                        Some(operator) => if values.len() == 0 {
                            Err(CompileErrorView::ArityError)
                        } else {
                            Ok(fold(after, operator, values, values[0], 1))
                        },
                        None => match resolve(after.unit, op) {
                            Err(error) => Err(error),
                            Ok(callee) => Ok(
                                (after.emit(OpView::Call(callee, values)), after.next()),
                            ),
                        },
                    },
                }
            },
        },
    }
}

/// What compiling a `define` form gives.  A variable gets a fresh storage
/// location that holds the value defined; of a function definition, the body
/// is compiled in the scope at hand.
pub open spec fn compile_define_spec(items: Seq<SyntaxNode>, state: CompilerView) -> Result<
    (CompilerView, usize),
    CompileErrorView,
>
    decreases items, 0nat,
{
    if items.len() != 3 {
        Err(CompileErrorView::ArityError)
    } else {
        match items[1] {
            SyntaxNode::List(signature) => match signature_of(signature) {
                Err(error) => Err(error),
                Ok(_) => compile_expr_spec(items[2], state),
            },
            SyntaxNode::Symbol(name) => match compile_expr_spec(items[2], state) {
                Err(error) => Err(error),
                Ok((after, value)) => {
                    let slot = Location { routine: after.routine, index: after.next() };
                    Ok(
                        (
                            after.emit(OpView::Alloc).emit(OpView::Store(slot, value)).bind(
                                name,
                                slot,
                            ),
                            value,
                        ),
                    )
                },
            },
            _ => Err(CompileErrorView::InvalidDefineTarget),
        }
    }
}

/// What compiling `items[from..]` from left to right gives: the state after
/// the last one, and `values` followed by their values; or the first error.
pub open spec fn compile_args_spec(
    items: Seq<SyntaxNode>,
    from: int,
    state: CompilerView,
    values: Seq<usize>,
) -> Result<(CompilerView, Seq<usize>), CompileErrorView>
    decreases items, items.len() - from,
{
    if from < 0 || from >= items.len() {
        Ok((state, values))
    } else {
        match compile_expr_spec(items[from], state) {
            Err(error) => Err(error),
            Ok((after, value)) => compile_args_spec(items, from + 1, after, values.push(value)),
        }
    }
}

/// The signature of the function that a top-level node defines, if it is
/// the definition of a function.
pub open spec fn function_target(node: SyntaxNode) -> Option<Seq<SyntaxNode>> {
    match node {
        SyntaxNode::List(items) => if operator_of(items) == Ok::<Seq<char>, CompileErrorView>(
            "define"@,
        ) && items.len() == 3 && items[1] is List {
            Some(items[1]->List_0)
        } else {
            None
        },
        _ => None,
    }
}

/// The state after a routine of the given name and parameters has been
/// entered into the unit and made the routine at hand.
pub open spec fn declare(
    state: CompilerView,
    name: Seq<char>,
    params: Seq<Seq<char>>,
) -> CompilerView {
    CompilerView {
        unit: state.unit.push(
            RoutineView { name, params, ops: Seq::<OpView>::empty(), result: None },
        ),
        scope: state.scope,
        routine: state.unit.len() as usize,
    }
}

/// The state after the parameters `params[from..]` have each been given a
/// fresh storage location that holds the incoming value, and been bound to
/// it.
pub open spec fn bind_params(state: CompilerView, params: Seq<Seq<char>>, from: int) -> CompilerView
    decreases params.len() - from,
{
    if from < 0 || from >= params.len() {
        state
    } else {
        let incoming = state.emit(OpView::Param(from as usize));
        let slot = Location { routine: state.routine, index: incoming.next() };
        bind_params(
            incoming.emit(OpView::Alloc).emit(OpView::Store(slot, state.next())).bind(
                params[from],
                slot,
            ),
            params,
            from + 1,
        )
    }
}

/// The state with the routine at hand returning `value`, if the routine is
/// then well formed.
pub open spec fn finish(state: CompilerView, value: usize) -> Result<
    CompilerView,
    CompileErrorView,
> {
    let done = state.returning(value);
    if routine_sound(done.unit, done.routine as int) {
        Ok(done)
    } else {
        Err(CompileErrorView::InvalidFunction)
    }
}

/// What compiling a top-level node into a unit gives.  The definition of a
/// function becomes a routine of its own, whose parameters are in scope for
/// its body alone; any other node goes to the anonymous routine.  The
/// routine that received the code returns the value of the node and must be
/// well formed.
pub open spec fn compile_spec(
    node: SyntaxNode,
    unit: Seq<RoutineView>,
    scope: Map<Seq<char>, Location>,
) -> Result<CompilerView, CompileErrorView> {
    let start = CompilerView { unit, scope, routine: ENTRY };
    match function_target(node) {
        Some(target) => match signature_of(target) {
            Err(error) => Err(error),
            Ok((name, params)) => match compile_expr_spec(
                node,
                bind_params(declare(start, name, params), params, 0),
            ) {
                Err(error) => Err(error),
                Ok((after, value)) => match finish(after, value) {
                    Err(error) => Err(error),
                    Ok(done) => Ok(CompilerView { scope, ..done }),
                },
            },
        },
        None => match compile_expr_spec(node, start) {
            Err(error) => Err(error),
            Ok((after, value)) => finish(after, value),
        },
    }
}

/// The outcome of a top-level compilation, by its value.
pub open spec fn compiled_view(outcome: Result<Compiler, CompileError>) -> Result<
    CompilerView,
    CompileErrorView,
> {
    match outcome {
        Ok(compiler) => Ok(compiler@),
        Err(error) => Err(error@),
    }
}

/// The outcome of a compile step, by its value.
pub open spec fn outcome_view(outcome: Result<(Compiler, usize), CompileError>) -> Result<
    (CompilerView, usize),
    CompileErrorView,
> {
    match outcome {
        Ok((compiler, value)) => Ok((compiler@, value)),
        Err(error) => Err(error@),
    }
}

/// Whether `name` is the given word.
fn is_word(name: &String, word: &str) -> (r: bool)
    ensures
        r == (name@ == word@),
{
    let owned = word.to_owned();
    *name == owned
}

/// The arithmetic operator that a symbol stands for, if it is one.
fn arithmetic_of(op: &String) -> (r: Option<Operator>)
    ensures
        r == arithmetic(op@),
{
    if is_word(op, "+") {
        Some(Operator::Add)
    } else if is_word(op, "-") {
        Some(Operator::Sub)
    } else if is_word(op, "*") {
        Some(Operator::Mul)
    } else if is_word(op, "/") {
        Some(Operator::Div)
    } else if is_word(op, "%") {
        Some(Operator::Rem)
    } else {
        None
    }
}

/// Splits a list into its operator, which must be a symbol, and its
/// arguments.
fn extract_op_and_args(exprs: &Vec<Expr>) -> (r: Result<(&String, &[Expr]), CompileError>)
    ensures
        match operator_of(views_of(exprs@)) {
            Ok(op) => r matches Ok((name, args)) && name@ == op && args@ == exprs@.subrange(
                1,
                exprs@.len() as int,
            ),
            Err(error) => r matches Err(e) && e@ == error,
        },
{
    if exprs.len() == 0 {
        return Err(CompileError::ExpectedOperator);
    }
    match &exprs[0] {
        Expr::Symbol(op) => {
            let (_, args) = exprs.as_slice().split_at(1);
            Ok((op, args))
        },
        _ => Err(CompileError::ExpectedOperator),
    }
}

/// What an operator that is no routine of the unit resolves to, given whether
/// the host has an intrinsic of that name: the intrinsic, or no operator at
/// all.
pub fn host_callee(name: &String, found: bool) -> (r: Result<Callee, CompileError>)
    ensures
        match host_callee_spec(name@, found) {
            Ok(callee) => r matches Ok(c) && c@ == callee,
            Err(error) => r matches Err(e) && e@ == error,
        },
{
    if found {
        Ok(Callee::Intrinsic(name.clone()))
    } else {
        Err(CompileError::UnknownOperator(name.clone()))
    }
}

impl Compiler {
    /// A compiler on a fresh unit, with nothing in scope.
    pub fn new() -> (compiler: Compiler)
        ensures
            compiler@.wf(),
            compiler@.routine == ENTRY,
            compiler.unit@ == Unit::new_spec(),
            compiler@.scope == Map::<Seq<char>, Location>::empty(),
    {
        Compiler { unit: Unit::new(), global_scope: SymbolTable::new(), routine: ENTRY }
    }

    /// Resolves an operator: to a routine of the unit, or else to an
    /// intrinsic of the host.
    fn get_function(&self, name: &String) -> (r: Result<Callee, CompileError>)
        ensures
            match resolve(self@.unit, name@) {
                Ok(callee) => r matches Ok(c) && c@ == callee,
                Err(error) => r matches Err(e) && e@ == error,
            },
    {
        match self.unit.lookup(name) {
            Some(r) => Ok(Callee::Routine(r)),
            None => host_callee(name, find_intrinsic(name.as_str()).is_some()),
        }
    }

    /// The routine that receives the code.
    fn fn_value(&self) -> (r: usize)
        ensures
            r == self@.routine,
    {
        self.routine
    }

    /// Emits one operation into the routine at hand; gives the value that it
    /// defines.
    fn emit(self, op: Op) -> (r: (Compiler, usize))
        requires
            self@.wf(),
        ensures
            r.0@ == self@.emit(op@),
            r.1 == self@.next(),
            r.0@.wf(),
    {
        let mut unit = self.unit;
        let value = unit.push_op(self.routine, op);
        (Compiler { unit, global_scope: self.global_scope, routine: self.routine }, value)
    }

    /// Allocates a fresh storage location in the routine at hand.
    fn allocate(self) -> (r: (Compiler, Location))
        requires
            self@.wf(),
        ensures
            r.0@ == self@.emit(OpView::Alloc),
            r.1 == (Location { routine: self@.routine, index: self@.next() }),
            r.0@.wf(),
    {
        let routine = self.fn_value();
        let (compiler, index) = self.emit(Op::Alloc);
        (compiler, Location { routine, index })
    }

    /// Folds the values from left to right with one operation per value after
    /// the first.
    fn fold_values(self, operator: Operator, values: &Vec<usize>) -> (r: (Compiler, usize))
        requires
            self@.wf(),
            values.len() > 0,
        ensures
            (r.0@, r.1) == fold(self@, operator, values@, values[0], 1),
            r.0@.wf(),
            r.0@.routine == self@.routine,
            r.0@.unit.len() == self@.unit.len(),
    {
        let mut compiler = self;
        let mut acc = values[0];
        let mut i: usize = 1;
        while i < values.len()
            invariant
                1 <= i <= values.len(),
                compiler@.wf(),
                compiler@.routine == self@.routine,
                compiler@.unit.len() == self@.unit.len(),
                fold(self@, operator, values@, values[0], 1) == fold(
                    compiler@,
                    operator,
                    values@,
                    acc,
                    i as int,
                ),
            decreases values.len() - i,
        {
            let (next, value) = compiler.emit(Op::Arith(operator, acc, values[i]));
            compiler = next;
            acc = value;
            i = i + 1;
        }
        (compiler, acc)
    }
}

/// The name and the parameters of a function signature `(name param...)`.
fn signature(target: &Vec<Expr>) -> (r: Result<(String, Vec<String>), CompileError>)
    ensures
        match signature_of(views_of(target@)) {
            Ok((name, params)) => r matches Ok((n, p)) && n@ == name && texts_of(p@) == params,
            Err(error) => r matches Err(e) && e@ == error,
        },
{
    let ghost nodes = views_of(target@);
    if target.len() == 0 {
        return Err(CompileError::InvalidDefineTarget);
    }
    let name = match &target[0] {
        Expr::Symbol(name) => name.clone(),
        _ => {
            return Err(CompileError::InvalidDefineTarget);
        },
    };
    let mut params: Vec<String> = Vec::new();
    let mut i: usize = 1;
    while i < target.len()
        invariant
            1 <= i <= target.len(),
            nodes == views_of(target@),
            nodes[0] is Symbol,
            params.len() == i - 1,
            forall|k: int| 1 <= k < i ==> (#[trigger] nodes[k]) is Symbol,
            forall|k: int| 0 <= k < i - 1 ==> (#[trigger] params[k])@ == nodes[k + 1]->Symbol_0,
        decreases target.len() - i,
    {
        assert(nodes[i as int] == target[i as int]@);
        match &target[i] {
            Expr::Symbol(param) => {
                params.push(param.clone());
            },
            _ => {
                return Err(CompileError::InvalidParameterList);
            },
        }
        i = i + 1;
    }
    let mut j: usize = 0;
    while j < params.len()
        invariant
            j <= params.len(),
            nodes == views_of(target@),
            nodes.len() > 0,
            nodes[0] is Symbol,
            forall|k: int| 1 <= k < nodes.len() ==> (#[trigger] nodes[k]) is Symbol,
            texts_of(params@) == parameters(nodes),
            forall|a: int, b: int| 0 <= a < b < params.len() && a < j ==> params[a]@ != params[b]@,
        decreases params.len() - j,
    {
        let mut k: usize = j + 1;
        while k < params.len()
            invariant
                j < k <= params.len(),
                nodes == views_of(target@),
                nodes.len() > 0,
                nodes[0] is Symbol,
                forall|k: int| 1 <= k < nodes.len() ==> (#[trigger] nodes[k]) is Symbol,
                texts_of(params@) == parameters(nodes),
                forall|b: int| j < b < k ==> params[j as int]@ != params[b]@,
            decreases params.len() - k,
        {
            if params[j] == params[k] {
                assert(texts_of(params@)[j as int] == texts_of(params@)[k as int]);
                return Err(CompileError::InvalidParameterList);
            }
            k = k + 1;
        }
        j = j + 1;
    }
    Ok((name, params))
}

impl Compiler {
    /// Compiles `expr` into the routine at hand and gives the value that
    /// stands for it.  A constant and a bound symbol each emit one
    /// operation; `define` of a symbol stores the value defined in a fresh
    /// storage location and binds the symbol to it; an arithmetic operator
    /// folds its arguments from the left; any other operator is called, as a
    /// routine of the unit or else as an intrinsic.  The first error ends the
    /// compilation, and nothing of the compiler is left.
    pub fn compile_expr(self, expr: &Expr) -> (outcome: Result<(Compiler, usize), CompileError>)
        requires
            self@.wf(),
        ensures
            outcome_view(outcome) == compile_expr_spec(expr@, self@),
            outcome matches Ok((compiler, _)) ==> compiler@.wf() && compiler@.routine
                == self@.routine && compiler@.unit.len() == self@.unit.len(),
        decreases expr,
    {
        match expr {
            Expr::Integer(n) => Ok(self.emit(Op::Integer(*n))),
            Expr::Float(text) => Ok(self.emit(Op::Decimal(text.clone()))),
            Expr::Symbol(name) => match self.global_scope.get(name) {
                Some(location) => Ok(self.emit(Op::Load(location))),
                None => Err(CompileError::UndefinedVariable(name.clone())),
            },
            Expr::List(items) => {
                let ghost nodes = views_of(items@);
                let (op, args) = match extract_op_and_args(items) {
                    Ok(parts) => parts,
                    Err(error) => {
                        return Err(error);
                    },
                };
                if is_word(op, "define") {
                    if args.len() != 2 {
                        return Err(CompileError::ArityError);
                    }
                    match &args[0] {
                        Expr::List(target) => match signature(target) {
                            Err(error) => Err(error),
                            Ok(_) => self.compile_expr(&args[1]),
                        },
                        Expr::Symbol(name) => match self.compile_expr(&args[1]) {
                            Err(error) => Err(error),
                            Ok((compiler, value)) => {
                                let (compiler, slot) = compiler.allocate();
                                let (compiler, _) = compiler.emit(Op::Store(slot, value));
                                let mut scope = compiler.global_scope;
                                scope.insert(name.clone(), slot);
                                Ok(
                                    (
                                        Compiler {
                                            unit: compiler.unit,
                                            global_scope: scope,
                                            routine: compiler.routine,
                                        },
                                        value,
                                    ),
                                )
                            },
                        },
                        _ => Err(CompileError::InvalidDefineTarget),
                    }
                } else {
                    let mut compiler = self;
                    let mut values: Vec<usize> = Vec::new();
                    let mut k: usize = 0;
                    while k < args.len()
                        invariant
                            k <= args.len(),
                            items.len() >= 1,
                            expr@ == SyntaxNode::List(nodes),
                            operator_of(nodes) == Ok::<Seq<char>, CompileErrorView>(op@),
                            op@ != "define"@,
                            args.len() == items.len() - 1,
                            expr matches Expr::List(own) && own == items,
                            nodes == views_of(items@),
                            args@ == items@.subrange(1, items@.len() as int),
                            compiler@.wf(),
                            compiler@.routine == self@.routine,
                            compiler@.unit.len() == self@.unit.len(),
                            compile_args_spec(nodes, 1, self@, Seq::empty()) == compile_args_spec(
                                nodes,
                                k + 1,
                                compiler@,
                                values@,
                            ),
                        decreases args.len() - k,
                    {
                        match compiler.compile_expr(&args[k]) {
                            Ok((next, value)) => {
                                compiler = next;
                                values.push(value);
                            },
                            Err(error) => {
                                return Err(error);
                            },
                        }
                        k = k + 1;
                    }
                    match arithmetic_of(op) {
                        Some(operator) => {
                            if values.len() == 0 {
                                Err(CompileError::ArityError)
                            } else {
                                Ok(compiler.fold_values(operator, &values))
                            }
                        },
                        None => match compiler.get_function(op) {
                            Err(error) => Err(error),
                            Ok(callee) => Ok(compiler.emit(Op::Call(callee, values))),
                        },
                    }
                }
            },
        }
    }
}

/// The signature of the function that a top-level node defines, if it is
/// the definition of a function.
fn function_signature(expr: &Expr) -> (r: Option<&Vec<Expr>>)
    ensures
        match function_target(expr@) {
            Some(target) => r matches Some(found) && views_of(found@) == target,
            None => r is None,
        },
{
    match expr {
        Expr::List(items) => {
            match extract_op_and_args(items) {
                Ok((op, args)) => {
                    if is_word(op, "define") && args.len() == 2 {
                        match &args[0] {
                            Expr::List(target) => Some(target),
                            _ => None,
                        }
                    } else {
                        None
                    }
                },
                Err(_) => None,
            }
        },
        _ => None,
    }
}

impl Compiler {
    /// Enters a routine of the given name and parameters into the unit and
    /// makes it the routine at hand.
    fn declare(self, name: String, arg_names: Vec<String>) -> (compiler: Compiler)
        ensures
            compiler@ == declare(self@, name@, texts_of(arg_names@)),
            compiler@.routine == self@.unit.len(),
            compiler@.wf(),
    {
        let mut unit = self.unit;
        let routine = unit.declare(name, arg_names);
        Compiler { unit, global_scope: self.global_scope, routine }
    }

    /// Gives each parameter of the routine at hand a fresh storage location
    /// that holds the incoming value, and binds its name to it.
    fn bind_parameters(self) -> (compiler: Compiler)
        requires
            self@.wf(),
        ensures
            compiler@ == bind_params(self@, self@.unit[self@.routine as int].params, 0),
            compiler@.wf(),
    {
        let ghost params = self@.unit[self@.routine as int].params;
        let mut compiler = self;
        let mut i: usize = 0;
        while i < compiler.unit.routines[compiler.routine].params.len()
            invariant
                compiler@.wf(),
                compiler@.routine == self@.routine,
                compiler@.unit[compiler@.routine as int].params == params,
                i <= params.len(),
                bind_params(self@, params, 0) == bind_params(compiler@, params, i as int),
            decreases params.len() - i,
        {
            let name = compiler.unit.routines[compiler.routine].params[i].clone();
            let (next, value) = compiler.emit(Op::Param(i));
            let (next, slot) = next.allocate();
            let (next, _) = next.emit(Op::Store(slot, value));
            let mut scope = next.global_scope;
            scope.insert(name, slot);
            compiler = Compiler { unit: next.unit, global_scope: scope, routine: next.routine };
            i = i + 1;
        }
        compiler
    }

    /// Makes the routine at hand return `value` and verifies its structure.
    fn finish(self, value: usize) -> (outcome: Result<Compiler, CompileError>)
        requires
            self@.wf(),
        ensures
            compiled_view(outcome) == finish(self@, value),
            outcome matches Ok(compiler) ==> compiler@.wf(),
    {
        let mut unit = self.unit;
        unit.set_result(self.routine, value);
        if unit.verify(self.routine) {
            Ok(Compiler { unit, global_scope: self.global_scope, routine: self.routine })
        } else {
            Err(CompileError::InvalidFunction)
        }
    }

    /// Compiles a top-level node into the routine that it belongs to: a
    /// routine of its own for the definition of a function, the anonymous
    /// routine for anything else.
    fn compile_fn(self, expr: &Expr) -> (outcome: Result<Compiler, CompileError>)
        requires
            self@.unit.len() > 0,
        ensures
            compiled_view(outcome) == compile_spec(expr@, self@.unit, self@.scope),
            outcome matches Ok(compiler) ==> compiler@.wf(),
            outcome is Ok && function_target(expr@) is Some ==> self@.unit.len() < usize::MAX,
    {
        match function_signature(expr) {
            Some(target) => {
                let (name, arg_names) = match signature(target) {
                    Ok(parts) => parts,
                    Err(error) => {
                        return Err(error);
                    },
                };
                let outer = self.global_scope;
                let inner = outer.clone();
                let start = Compiler { unit: self.unit, global_scope: inner, routine: ENTRY };
                let declared = start.declare(name, arg_names);
                assert(declared.unit.routines.len() == self@.unit.len() + 1);
                let compiler = declared.bind_parameters();
                match compiler.compile_expr(expr) {
                    Err(error) => Err(error),
                    Ok((compiler, value)) => match compiler.finish(value) {
                        Err(error) => Err(error),
                        Ok(done) => Ok(
                            Compiler {
                                unit: done.unit,
                                global_scope: outer,
                                routine: done.routine,
                            },
                        ),
                    },
                }
            },
            None => {
                let start = Compiler {
                    unit: self.unit,
                    global_scope: self.global_scope,
                    routine: ENTRY,
                };
                match start.compile_expr(expr) {
                    Err(error) => Err(error),
                    Ok((compiler, value)) => compiler.finish(value),
                }
            },
        }
    }

    /// Compiles a top-level node into `unit`, with the names of
    /// `global_scope` visible.  The compiler that comes back holds the unit
    /// with the new code, the scope with what the node has defined, and the
    /// routine that received the code.  On an error nothing comes back: what
    /// was emitted up to there is dropped with the unit.
    pub fn compile(unit: Unit, expr: &Expr, global_scope: SymbolTable) -> (outcome: Result<
        Compiler,
        CompileError,
    >)
        requires
            unit.wf(),
        ensures
            compiled_view(outcome) == compile_spec(expr@, unit@, global_scope@),
            outcome matches Ok(compiler) ==> {
                &&& compiler@.wf()
                &&& routine_sound(compiler@.unit, compiler@.routine as int)
                &&& functions_sound(unit@) ==> functions_sound(compiler@.unit)
                &&& functions_sound(unit@) && !expr@.is_definition() ==> unit_sound(
                    compiler@.unit,
                )
            },
    {
        let compiler = Compiler { unit, global_scope, routine: ENTRY };
        let outcome = compiler.compile_fn(expr);
        proof {
            if outcome is Ok {
                if functions_sound(unit@) {
                    lemma_compile_keeps_sound(expr@, unit@, global_scope@);
                }
            }
        }
        outcome
    }
}

/// Whether `after` is `before` with more code in the routine at hand and
/// more names in scope, and nothing else changed: the same routines with the
/// same names and parameters, the other routines untouched, and what the
/// routine at hand held still at its start.
pub open spec fn extends(before: CompilerView, after: CompilerView) -> bool {
    let r = before.routine as int;
    &&& after.routine == before.routine
    &&& after.unit.len() == before.unit.len()
    &&& forall|i: int|
        0 <= i < before.unit.len() && i != r ==> #[trigger] after.unit[i] == before.unit[i]
    &&& after.unit[r].name == before.unit[r].name
    &&& after.unit[r].params == before.unit[r].params
    &&& after.unit[r].result == before.unit[r].result
    &&& before.unit[r].ops.len() <= after.unit[r].ops.len()
    &&& after.unit[r].ops.take(before.unit[r].ops.len() as int) == before.unit[r].ops
    &&& forall|name: Seq<char>| before.scope.contains_key(name) ==> after.scope.contains_key(name)
}

/// A state extends itself, and one more operation extends it.
pub proof fn lemma_extends_emit(state: CompilerView, op: OpView)
    requires
        state.wf(),
    ensures
        extends(state, state),
        extends(state, state.emit(op)),
        state.emit(op).wf(),
{
    let r = state.routine as int;
    assert(state.unit[r].ops.take(state.unit[r].ops.len() as int) =~= state.unit[r].ops);
    assert(state.emit(op).unit[r].ops.take(state.unit[r].ops.len() as int) =~= state.unit[r].ops);
}

/// What extends an extension extends the state.
pub proof fn lemma_extends_transitive(a: CompilerView, b: CompilerView, c: CompilerView)
    requires
        a.wf(),
        extends(a, b),
        extends(b, c),
    ensures
        extends(a, c),
{
    let r = a.routine as int;
    let n = a.unit[r].ops.len() as int;
    let m = b.unit[r].ops.len() as int;
    assert(c.unit[r].ops.take(n) =~= c.unit[r].ops.take(m).take(n));
}

/// A fold only adds code to the routine at hand.
pub proof fn lemma_fold_extends(
    state: CompilerView,
    operator: Operator,
    values: Seq<usize>,
    acc: usize,
    from: int,
)
    requires
        state.wf(),
    ensures
        extends(state, fold(state, operator, values, acc, from).0),
    decreases values.len() - from,
{
    lemma_extends_emit(state, OpView::Arith(operator, acc, values[from]));
    if 0 <= from < values.len() {
        let next = state.emit(OpView::Arith(operator, acc, values[from]));
        lemma_fold_extends(next, operator, values, state.next(), from + 1);
        lemma_extends_transitive(state, next, fold(state, operator, values, acc, from).0);
    }
}

/// Compiling an expression only adds code to the routine at hand and names
/// to the scope: the routines of the unit, their names and parameters, the
/// code of the other routines and the code emitted before all stay.
pub proof fn lemma_compile_expr_extends(node: SyntaxNode, state: CompilerView)
    requires
        state.wf(),
        compile_expr_spec(node, state) is Ok,
    ensures
        extends(state, compile_expr_spec(node, state)->Ok_0.0),
    decreases node, 0nat,
{
    match node {
        SyntaxNode::Integer(n) => {
            lemma_extends_emit(state, OpView::Integer(n));
        },
        SyntaxNode::Float(text) => {
            lemma_extends_emit(state, OpView::Decimal(text));
        },
        SyntaxNode::Symbol(name) => {
            lemma_extends_emit(state, OpView::Load(state.scope[name]));
        },
        SyntaxNode::List(items) => {
            let op = operator_of(items)->Ok_0;
            if op == "define"@ {
                lemma_compile_define_extends(items, state);
            } else {
                lemma_compile_args_extends(items, 1, state, Seq::empty());
                let (after, values) = compile_args_spec(items, 1, state, Seq::empty())->Ok_0;
                match arithmetic(op) {
                    Some(operator) => {
                        lemma_fold_extends(after, operator, values, values[0], 1);
                        lemma_extends_transitive(
                            state,
                            after,
                            fold(after, operator, values, values[0], 1).0,
                        );
                    },
                    None => {
                        let callee = resolve(after.unit, op)->Ok_0;
                        lemma_extends_emit(after, OpView::Call(callee, values));
                        lemma_extends_transitive(
                            state,
                            after,
                            after.emit(OpView::Call(callee, values)),
                        );
                    },
                }
            }
        },
    }
}

/// Compiling a `define` form only adds code to the routine at hand and
/// names to the scope.
pub proof fn lemma_compile_define_extends(items: Seq<SyntaxNode>, state: CompilerView)
    requires
        state.wf(),
        compile_define_spec(items, state) is Ok,
    ensures
        extends(state, compile_define_spec(items, state)->Ok_0.0),
    decreases items, 0nat,
{
    match items[1] {
        SyntaxNode::List(_) => {
            lemma_compile_expr_extends(items[2], state);
        },
        SyntaxNode::Symbol(name) => {
            lemma_compile_expr_extends(items[2], state);
            let (after, value) = compile_expr_spec(items[2], state)->Ok_0;
            let slot = Location { routine: after.routine, index: after.next() };
            let allocated = after.emit(OpView::Alloc);
            let stored = allocated.emit(OpView::Store(slot, value));
            lemma_extends_emit(after, OpView::Alloc);
            lemma_extends_emit(allocated, OpView::Store(slot, value));
            lemma_extends_transitive(after, allocated, stored);
            assert(extends(stored, stored.bind(name, slot))) by {
                let ops = stored.unit[stored.routine as int].ops;
                assert(ops.take(ops.len() as int) =~= ops);
            }
            lemma_extends_transitive(after, stored, stored.bind(name, slot));
            lemma_extends_transitive(state, after, stored.bind(name, slot));
        },
        _ => {},
    }
}

/// Compiling arguments only adds code to the routine at hand and names to
/// the scope.
pub proof fn lemma_compile_args_extends(
    items: Seq<SyntaxNode>,
    from: int,
    state: CompilerView,
    values: Seq<usize>,
)
    requires
        state.wf(),
        compile_args_spec(items, from, state, values) is Ok,
    ensures
        extends(state, compile_args_spec(items, from, state, values)->Ok_0.0),
    decreases items, items.len() - from,
{
    lemma_extends_emit(state, OpView::Alloc);
    if 0 <= from < items.len() {
        lemma_compile_expr_extends(items[from], state);
        let (after, value) = compile_expr_spec(items[from], state)->Ok_0;
        lemma_compile_args_extends(items, from + 1, after, values.push(value));
        lemma_extends_transitive(
            state,
            after,
            compile_args_spec(items, from + 1, after, values.push(value))->Ok_0.0,
        );
    }
}

/// A fold over a single value emits nothing and gives that value.
pub proof fn lemma_fold_of_one(state: CompilerView, operator: Operator, value: usize)
    ensures
        fold(state, operator, seq![value], value, 1) == (state, value),
{
}

/// A fold is a left fold: one more value at the end costs one more
/// operation, which takes what the values before it fold to as its left
/// operand and the new value as its right one.
pub proof fn lemma_fold_is_left_fold(
    state: CompilerView,
    operator: Operator,
    values: Seq<usize>,
    last: usize,
    acc: usize,
    from: int,
)
    requires
        1 <= from <= values.len(),
    ensures
        fold(state, operator, values.push(last), acc, from) == ({
            let (folded, value) = fold(state, operator, values, acc, from);
            (folded.emit(OpView::Arith(operator, value, last)), folded.next())
        }),
    decreases values.len() - from,
{
    let longer = values.push(last);
    if from == values.len() {
        let next = state.emit(OpView::Arith(operator, acc, last));
        assert(fold(next, operator, longer, state.next(), from + 1) == (next, state.next()));
    } else {
        lemma_fold_is_left_fold(
            state.emit(OpView::Arith(operator, acc, values[from])),
            operator,
            values,
            last,
            state.next(),
            from + 1,
        );
    }
}

/// An arithmetic operator with a single argument compiles to the argument
/// alone.
pub proof fn lemma_single_argument_is_identity(
    op: Seq<char>,
    argument: SyntaxNode,
    state: CompilerView,
)
    requires
        arithmetic(op) is Some,
    ensures
        compile_expr_spec(SyntaxNode::List(seq![SyntaxNode::Symbol(op), argument]), state)
            == compile_expr_spec(argument, state),
{
    let items = seq![SyntaxNode::Symbol(op), argument];
    assert(op != "define"@) by {
        reveal_strlit("define");
        reveal_strlit("+");
        reveal_strlit("-");
        reveal_strlit("*");
        reveal_strlit("/");
        reveal_strlit("%");
        assert("define"@.len() == 6);
    }
    if compile_expr_spec(argument, state) is Ok {
        let (after, value) = compile_expr_spec(argument, state)->Ok_0;
        let values = Seq::<usize>::empty().push(value);
        assert(compile_args_spec(items, 2, after, values) == Ok::<
            (CompilerView, Seq<usize>),
            CompileErrorView,
        >((after, values)));
    }
}

/// The definition of a variable: `(define name value)`.
pub open spec fn definition(name: Seq<char>, value: SyntaxNode) -> SyntaxNode {
    SyntaxNode::List(seq![SyntaxNode::Symbol("define"@), SyntaxNode::Symbol(name), value])
}

/// A definition binds its name to a storage location of its own, whether or
/// not the name was bound before: the code of the value is followed by the
/// allocation of the location and by the store of the value to it, and a
/// reference to the name that is compiled next loads from that location.
pub proof fn lemma_definition_binds_anew(name: Seq<char>, value: SyntaxNode, state: CompilerView)
    requires
        state.wf(),
        compile_expr_spec(definition(name, value), state) is Ok,
    ensures
        compile_expr_spec(value, state) is Ok,
        ({
            let (inner, defined) = compile_expr_spec(value, state)->Ok_0;
            let (after, given) = compile_expr_spec(definition(name, value), state)->Ok_0;
            let r = state.routine as int;
            let at = inner.unit[r].ops.len() as int;
            let slot = Location { routine: state.routine, index: inner.next() };
            &&& given == defined
            &&& after.routine == state.routine
            &&& after.unit[r].ops.len() == at + 2
            &&& after.unit[r].ops.take(at) == inner.unit[r].ops
            &&& after.unit[r].ops[at] == OpView::Alloc
            &&& after.unit[r].ops[at + 1] == OpView::Store(slot, defined)
            &&& after.scope == inner.scope.insert(name, slot)
            &&& compile_expr_spec(SyntaxNode::Symbol(name), after) == Ok::<
                (CompilerView, usize),
                CompileErrorView,
            >((after.emit(OpView::Load(slot)), after.next()))
        }),
{
    lemma_compile_expr_extends(value, state);
    let (inner, defined) = compile_expr_spec(value, state)->Ok_0;
    let r = state.routine as int;
    let at = inner.unit[r].ops.len() as int;
}

/// Binding the parameters only adds code to the routine at hand and names
/// to the scope.
pub proof fn lemma_bind_params_extends(state: CompilerView, params: Seq<Seq<char>>, from: int)
    requires
        state.wf(),
    ensures
        extends(state, bind_params(state, params, from)),
    decreases params.len() - from,
{
    lemma_extends_emit(state, OpView::Alloc);
    if 0 <= from < params.len() {
        let incoming = state.emit(OpView::Param(from as usize));
        let slot = Location { routine: state.routine, index: incoming.next() };
        let allocated = incoming.emit(OpView::Alloc);
        let stored = allocated.emit(OpView::Store(slot, state.next()));
        let bound = stored.bind(params[from], slot);
        lemma_extends_emit(state, OpView::Param(from as usize));
        lemma_extends_emit(incoming, OpView::Alloc);
        lemma_extends_emit(allocated, OpView::Store(slot, state.next()));
        lemma_extends_emit(stored, OpView::Alloc);
        lemma_extends_transitive(state, incoming, allocated);
        lemma_extends_transitive(state, allocated, stored);
        lemma_extends_transitive(state, stored, bound);
        lemma_bind_params_extends(bound, params, from + 1);
        lemma_extends_transitive(state, bound, bind_params(bound, params, from + 1));
    }
}

/// What a name resolves to among the first `upto` routines depends on their
/// names alone.
pub proof fn lemma_lookup_by_names(
    unit: Seq<RoutineView>,
    other: Seq<RoutineView>,
    name: Seq<char>,
    upto: int,
)
    requires
        upto <= unit.len(),
        upto <= other.len(),
        forall|i: int| 0 <= i < upto ==> (#[trigger] unit[i]).name == other[i].name,
    ensures
        lookup_routine(unit, name, upto) == lookup_routine(other, name, upto),
    decreases upto,
{
    if upto > 0 {
        lemma_lookup_by_names(unit, other, name, upto - 1);
    }
}

/// A name that resolves among the first routines of a unit resolves in the
/// whole unit, to that routine or to a later one of the same name.
pub proof fn lemma_lookup_stays(unit: Seq<RoutineView>, name: Seq<char>, upto: int, all: int)
    requires
        0 <= upto <= all <= unit.len() <= usize::MAX,
        lookup_routine(unit, name, upto) is Some,
    ensures
        lookup_routine(unit, name, all) is Some,
        lookup_routine(unit, name, all)->Some_0 >= lookup_routine(unit, name, upto)->Some_0,
        unit[lookup_routine(unit, name, all)->Some_0 as int].name == name,
    decreases all - upto,
{
    lemma_lookup_names(unit, name, upto);
    if upto < all {
        lemma_lookup_stays(unit, name, upto, all - 1);
        lemma_lookup_names(unit, name, all);
    }
}

/// What a name resolves to is one of the first `upto` routines and has that
/// name.
pub proof fn lemma_lookup_names(unit: Seq<RoutineView>, name: Seq<char>, upto: int)
    requires
        upto <= unit.len() <= usize::MAX,
    ensures
        lookup_routine(unit, name, upto) matches Some(r) ==> r < upto && unit[r as int].name
            == name,
    decreases upto,
{
    if upto > 0 {
        lemma_lookup_names(unit, name, upto - 1);
    }
}

/// A top-level compilation keeps the routines that the unit had, with their
/// names and parameters, and keeps every name in scope.  All but the
/// anonymous routine keep their code too, and the anonymous one keeps what
/// it held at its start.
pub proof fn lemma_compile_keeps(
    node: SyntaxNode,
    unit: Seq<RoutineView>,
    scope: Map<Seq<char>, Location>,
)
    requires
        unit.len() > 0,
        function_target(node) is Some ==> unit.len() < usize::MAX,
        compile_spec(node, unit, scope) is Ok,
    ensures
        ({
            let done = compile_spec(node, unit, scope)->Ok_0;
            &&& done.wf()
            &&& unit.len() <= done.unit.len() <= unit.len() + 1
            &&& forall|i: int|
                0 <= i < unit.len() ==> (#[trigger] done.unit[i]).name == unit[i].name
                    && done.unit[i].params == unit[i].params
            &&& forall|i: int| 0 < i < unit.len() ==> #[trigger] done.unit[i] == unit[i]
            &&& done.unit[0].ops.take(unit[0].ops.len() as int) == unit[0].ops
            &&& forall|name: Seq<char>|
                scope.contains_key(name) ==> #[trigger] done.scope.contains_key(name)
        }),
{
    let start = CompilerView { unit, scope, routine: ENTRY };
    match function_target(node) {
        Some(target) => {
            let (name, params) = signature_of(target)->Ok_0;
            let declared = declare(start, name, params);
            let inside = bind_params(declared, params, 0);
            lemma_bind_params_extends(declared, params, 0);
            lemma_compile_expr_extends(node, inside);
            let (after, value) = compile_expr_spec(node, inside)->Ok_0;
            lemma_extends_transitive(declared, inside, after);
        },
        None => {
            lemma_compile_expr_extends(node, start);
        },
    }
}

/// The definition of a function enters one routine, the last of the unit:
/// it has the name and the parameters of the signature, it is well formed,
/// the name resolves to it, and the scope is what it was.
pub proof fn lemma_function_is_callable(
    node: SyntaxNode,
    unit: Seq<RoutineView>,
    scope: Map<Seq<char>, Location>,
)
    requires
        0 < unit.len() < usize::MAX,
        function_target(node) is Some,
        compile_spec(node, unit, scope) is Ok,
    ensures
        signature_of(function_target(node)->Some_0) is Ok,
        ({
            let (name, params) = signature_of(function_target(node)->Some_0)->Ok_0;
            let done = compile_spec(node, unit, scope)->Ok_0;
            let r = unit.len() as int;
            &&& done.unit.len() == r + 1
            &&& done.routine == r
            &&& done.unit[r].name == name
            &&& done.unit[r].params == params
            &&& routine_sound(done.unit, r)
            &&& lookup_routine(done.unit, name, r + 1) == Some(r as usize)
            &&& done.scope == scope
        }),
{
    let start = CompilerView { unit, scope, routine: ENTRY };
    let target = function_target(node)->Some_0;
    let (name, params) = signature_of(target)->Ok_0;
    let declared = declare(start, name, params);
    let inside = bind_params(declared, params, 0);
    lemma_bind_params_extends(declared, params, 0);
    lemma_compile_expr_extends(node, inside);
    let (after, value) = compile_expr_spec(node, inside)->Ok_0;
    lemma_extends_transitive(declared, inside, after);
}

/// A routine that is well formed in a unit is well formed in every unit
/// that holds the same routine at the same index and the routines of the
/// first unit with the same parameters.
pub proof fn lemma_sound_in_larger(unit: Seq<RoutineView>, other: Seq<RoutineView>, r: int)
    requires
        routine_sound(unit, r),
        unit.len() <= other.len(),
        other[r] == unit[r],
        forall|i: int| 0 <= i < unit.len() ==> (#[trigger] other[i]).params == unit[i].params,
    ensures
        routine_sound(other, r),
{
    assert forall|at: int| 0 <= at < other[r].ops.len() implies op_sound(other, r, at) by {
        assert(op_sound(unit, r, at));
    }
}

/// A top-level compilation leaves the functions of the unit well formed,
/// and the routine that received the code is well formed.  After anything
/// but the definition of a function, that is the anonymous routine, and the
/// whole unit is well formed.
pub proof fn lemma_compile_keeps_sound(
    node: SyntaxNode,
    unit: Seq<RoutineView>,
    scope: Map<Seq<char>, Location>,
)
    requires
        unit.len() > 0,
        function_target(node) is Some ==> unit.len() < usize::MAX,
        functions_sound(unit),
        compile_spec(node, unit, scope) is Ok,
    ensures
        functions_sound(compile_spec(node, unit, scope)->Ok_0.unit),
        routine_sound(
            compile_spec(node, unit, scope)->Ok_0.unit,
            compile_spec(node, unit, scope)->Ok_0.routine as int,
        ),
        function_target(node) is None ==> unit_sound(compile_spec(node, unit, scope)->Ok_0.unit),
{
    let done = compile_spec(node, unit, scope)->Ok_0;
    lemma_compile_keeps(node, unit, scope);
    if function_target(node) is Some {
        lemma_function_is_callable(node, unit, scope);
    } else {
        lemma_compile_expr_extends(node, CompilerView { unit, scope, routine: ENTRY });
    }
    assert forall|r: int| 0 < r < done.unit.len() implies routine_sound(done.unit, r) by {
        if r < unit.len() {
            lemma_sound_in_larger(unit, done.unit, r);
        }
    }
}

} // verus!
