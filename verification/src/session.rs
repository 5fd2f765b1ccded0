//! The session driver: keeps the definitions that were accepted and compiles
//! them again into a fresh unit for every input.

use vstd::prelude::*;
use crate::compiler::{
    compile_spec, compiled_view, definition, function_target, lemma_compile_keeps,
    lemma_definition_binds_anew, lemma_function_is_callable, lemma_lookup_by_names,
    lemma_lookup_stays, signature_of, CompileError, CompileErrorView, Compiler, CompilerView,
};
use crate::expr::{views_of, Expr, SyntaxNode};
use crate::unit::{functions_sound, lookup_routine, unit_sound, Location, Unit, ENTRY};

verus! {

/// What became of an input that compiled.
#[derive(Debug, PartialEq, Eq)]
pub enum Outcome {
    /// A `define` form: it was added to the definition records, and is not
    /// executed.
    Defined,
    /// Any other expression: the unit whose anonymous routine computes it, to
    /// be handed to the backend.  Nothing of it is kept.
    Expression(Unit),
}

/// A session: the definition records, in the order in which they were
/// accepted.  The records only grow, and compiling them in order into a fresh
/// unit always succeeds.
pub struct Session {
    records: Vec<Expr>,
}

/// The state of a compile pass that has just started: a fresh unit and
/// nothing in scope.
pub open spec fn fresh() -> CompilerView {
    CompilerView {
        unit: Unit::new_spec(),
        scope: Map::<Seq<char>, Location>::empty(),
        routine: ENTRY,
    }
}

/// What compiling the first `upto` records in order into a fresh unit gives.
pub open spec fn replay_spec(records: Seq<SyntaxNode>, upto: int) -> Result<
    CompilerView,
    CompileErrorView,
>
    decreases upto,
{
    if upto <= 0 || upto > records.len() {
        Ok(fresh())
    } else {
        match replay_spec(records, upto - 1) {
            Err(error) => Err(error),
            Ok(state) => compile_spec(records[upto - 1], state.unit, state.scope),
        }
    }
}

/// What compiling `node` after all of `records` gives.
pub open spec fn compile_after(records: Seq<SyntaxNode>, node: SyntaxNode) -> Result<
    CompilerView,
    CompileErrorView,
> {
    match replay_spec(records, records.len() as int) {
        Err(error) => Err(error),
        Ok(state) => compile_spec(node, state.unit, state.scope),
    }
}

/// Records that come later do not change what the earlier ones compile to.
pub proof fn lemma_replay_prefix(records: Seq<SyntaxNode>, node: SyntaxNode, upto: int)
    requires
        upto <= records.len(),
    ensures
        replay_spec(records.push(node), upto) == replay_spec(records, upto),
    decreases upto,
{
    if upto > 0 {
        lemma_replay_prefix(records, node, upto - 1);
    }
}

/// Compiling one more record after the others is what replaying all of them
/// gives.
pub proof fn lemma_replay_push(records: Seq<SyntaxNode>, node: SyntaxNode)
    ensures
        replay_spec(records.push(node), records.len() as int + 1) == compile_after(records, node),
{
    lemma_replay_prefix(records, node, records.len() as int);
}

/// Compiles the records in order into a fresh unit.
fn replay_records(records: &Vec<Expr>) -> (outcome: Result<Compiler, CompileError>)
    ensures
        compiled_view(outcome) == replay_spec(views_of(records@), records@.len() as int),
        outcome matches Ok(compiler) ==> compiler@.wf() && functions_sound(compiler@.unit),
{
    let ghost nodes = views_of(records@);
    let mut compiler = Compiler::new();
    let mut i: usize = 0;
    while i < records.len()
        invariant
            i <= records.len(),
            nodes == views_of(records@),
            compiler@.wf(),
            functions_sound(compiler@.unit),
            replay_spec(nodes, i as int) == Ok::<CompilerView, CompileErrorView>(compiler@),
        decreases records.len() - i,
    {
        match Compiler::compile(compiler.unit, &records[i], compiler.global_scope) {
            Ok(next) => {
                compiler = next;
            },
            Err(error) => {
                proof {
                    lemma_replay_fails_on(nodes, i as int + 1, nodes.len() as int);
                }
                return Err(error);
            },
        }
        i = i + 1;
    }
    Ok(compiler)
}

/// Once a record fails to compile, every longer replay fails with the same
/// error.
pub proof fn lemma_replay_fails_on(records: Seq<SyntaxNode>, failed: int, upto: int)
    requires
        0 < failed <= upto <= records.len(),
        replay_spec(records, failed) is Err,
    ensures
        replay_spec(records, upto) == replay_spec(records, failed),
    decreases upto - failed,
{
    if failed < upto {
        lemma_replay_fails_on(records, failed, upto - 1);
    }
}

impl View for Session {
    type V = Seq<SyntaxNode>;

    closed spec fn view(&self) -> Seq<SyntaxNode> {
        views_of(self.records@)
    }
}

impl Session {
    #[verifier::type_invariant]
    spec fn replays(self) -> bool {
        replay_spec(views_of(self.records@), self.records@.len() as int) is Ok
    }

    /// A session without definitions.
    pub fn new() -> (session: Session)
        ensures
            session@ == Seq::<SyntaxNode>::empty(),
    {
        let session = Session { records: Vec::new() };
        session
    }

    /// Takes up a session from its definition records, if they compile in
    /// order into a fresh unit; else the error of the first one that does
    /// not.
    pub fn restore(records: Vec<Expr>) -> (outcome: Result<Session, CompileError>)
        ensures
            match replay_spec(views_of(records@), records@.len() as int) {
                Ok(_) => outcome matches Ok(session) && session@ == views_of(records@),
                Err(error) => outcome matches Err(e) && e@ == error,
            },
    {
        match replay_records(&records) {
            Ok(_) => Ok(Session { records }),
            Err(error) => Err(error),
        }
    }

    /// The definition records, oldest first.
    pub fn records(&self) -> (records: &Vec<Expr>)
        ensures
            views_of(records@) == self@,
    {
        &self.records
    }

    /// Starts a unit and compiles every definition record into it, in the
    /// order in which they were accepted.  The outcome depends on the records
    /// alone: any two replays of the same records give the same unit and the
    /// same bindings.  Every function of the unit is well formed.
    pub fn replay(&self) -> (compiler: Compiler)
        ensures
            replay_spec(self@, self@.len() as int) == Ok::<CompilerView, CompileErrorView>(
                compiler@,
            ),
            compiler@.wf(),
            functions_sound(compiler@.unit),
    {
        proof {
            use_type_invariant(self);
        }
        match replay_records(&self.records) {
            Ok(compiler) => compiler,
            Err(_) => {
                assert(false);
                Compiler::new()
            },
        }
    }

    /// Takes one input through a fresh unit: replays the definition records,
    /// compiles the input after them, and classifies it.  A `define` form is
    /// added to the records; any other expression comes back as the unit to
    /// execute, which is well formed.  An input that does not compile leaves
    /// the records as they were.
    pub fn submit(&mut self, expr: Expr) -> (outcome: Result<Outcome, CompileError>)
        ensures
            match compile_after(old(self)@, expr@) {
                Err(error) => {
                    &&& outcome matches Err(e)
                    &&& e@ == error
                    &&& final(self)@ == old(self)@
                },
                Ok(done) => if expr@.is_definition() {
                    &&& outcome == Ok::<Outcome, CompileError>(Outcome::Defined)
                    &&& final(self)@ == old(self)@.push(expr@)
                } else {
                    &&& outcome matches Ok(Outcome::Expression(unit))
                    &&& unit@ == done.unit
                    &&& unit_sound(unit@)
                    &&& final(self)@ == old(self)@
                },
            },
    {
        let compiler = self.replay();
        match Compiler::compile(compiler.unit, &expr, compiler.global_scope) {
            Err(error) => Err(error),
            Ok(done) => {
                if expr.is_definition() {
                    proof {
                        lemma_replay_push(self@, expr@);
                        assert(views_of(self.records@.push(expr)) =~= self@.push(expr@));
                    }
                    let mut records: Vec<Expr> = Vec::new();
                    std::mem::swap(&mut self.records, &mut records);
                    records.push(expr);
                    std::mem::swap(&mut self.records, &mut records);
                    Ok(Outcome::Defined)
                } else {
                    Ok(Outcome::Expression(done.unit))
                }
            },
        }
    }
}

/// A replay that succeeds has succeeded record by record, and its unit
/// holds the anonymous routine and at most one routine per record.
pub proof fn lemma_replay_steps(records: Seq<SyntaxNode>, upto: int)
    requires
        0 <= upto <= records.len(),
        records.len() + 1 < usize::MAX,
        replay_spec(records, upto) is Ok,
    ensures
        forall|k: int| 0 <= k <= upto ==> (#[trigger] replay_spec(records, k)) is Ok,
        replay_spec(records, upto)->Ok_0.wf(),
        0 < replay_spec(records, upto)->Ok_0.unit.len() <= upto + 1,
    decreases upto,
{
    if upto > 0 {
        lemma_replay_steps(records, upto - 1);
        let before = replay_spec(records, upto - 1)->Ok_0;
        lemma_compile_keeps(records[upto - 1], before.unit, before.scope);
    }
}

/// Replaying the records reproduces every variable that they define: the
/// name of each definition among them is in scope after the replay.
pub proof fn lemma_replay_defines_variables(
    records: Seq<SyntaxNode>,
    k: int,
    name: Seq<char>,
    value: SyntaxNode,
    upto: int,
)
    requires
        0 <= k < upto <= records.len(),
        records.len() + 1 < usize::MAX,
        records[k] == definition(name, value),
        replay_spec(records, upto) is Ok,
    ensures
        replay_spec(records, upto)->Ok_0.scope.contains_key(name),
    decreases upto,
{
    lemma_replay_steps(records, upto);
    let before = replay_spec(records, upto - 1)->Ok_0;
    lemma_replay_steps(records, upto - 1);
    if upto == k + 1 {
        let start = CompilerView { unit: before.unit, scope: before.scope, routine: ENTRY };
        lemma_definition_binds_anew(name, value, start);
    } else {
        lemma_replay_defines_variables(records, k, name, value, upto - 1);
        lemma_compile_keeps(records[upto - 1], before.unit, before.scope);
    }
}

/// Replaying the records reproduces every function that they define: the
/// name of each function definition among them resolves to a routine after
/// the replay.
pub proof fn lemma_replay_defines_functions(records: Seq<SyntaxNode>, k: int, upto: int)
    requires
        0 <= k < upto <= records.len(),
        records.len() + 1 < usize::MAX,
        function_target(records[k]) is Some,
        replay_spec(records, upto) is Ok,
    ensures
        signature_of(function_target(records[k])->Some_0) is Ok,
        ({
            let name = signature_of(function_target(records[k])->Some_0)->Ok_0.0;
            let unit = replay_spec(records, upto)->Ok_0.unit;
            lookup_routine(unit, name, unit.len() as int) is Some
        }),
    decreases upto,
{
    lemma_replay_steps(records, upto);
    let before = replay_spec(records, upto - 1)->Ok_0;
    lemma_replay_steps(records, upto - 1);
    if upto == k + 1 {
        lemma_function_is_callable(records[k], before.unit, before.scope);
    } else {
        lemma_replay_defines_functions(records, k, upto - 1);
        lemma_compile_keeps(records[upto - 1], before.unit, before.scope);
        let name = signature_of(function_target(records[k])->Some_0)->Ok_0.0;
        let unit = replay_spec(records, upto)->Ok_0.unit;
        lemma_lookup_by_names(unit, before.unit, name, before.unit.len() as int);
        lemma_lookup_stays(unit, name, before.unit.len() as int, unit.len() as int);
    }
}

} // verus!
