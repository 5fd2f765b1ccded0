//! The compilation unit: the routines emitted for one input, each a list of
//! native operations in single-assignment form.

use vstd::prelude::*;

verus! {

/// A storage location: the slot that operation `index` of routine `routine`
/// allocates.
#[derive(Clone, Copy, Debug, PartialEq, Eq, Structural)]
pub struct Location {
    pub routine: usize,
    pub index: usize,
}

/// The arithmetic operators of the language.
#[derive(Clone, Copy, Debug, PartialEq, Eq, Structural)]
pub enum Operator {
    Add,
    Sub,
    Mul,
    Div,
    Rem,
}

/// What a call goes to: a routine of the unit, by its index, or an intrinsic
/// of the host, by its name.
#[derive(Debug, PartialEq, Eq)]
pub enum Callee {
    Routine(usize),
    Intrinsic(String),
}

/// A native operation.  The operation at index `i` of a routine defines value
/// `i`; operands name earlier values by their index.
#[derive(Debug, PartialEq, Eq)]
pub enum Op {
    /// An integer constant, widened to a double.
    Integer(i64),
    /// A decimal constant, given as text.
    Decimal(String),
    /// The incoming parameter with this index.
    Param(usize),
    /// A fresh storage location for one double.
    Alloc,
    /// The value held by a storage location.
    Load(Location),
    /// Writes a value to a storage location.
    Store(Location, usize),
    /// An arithmetic operation on two values.
    Arith(Operator, usize, usize),
    /// A call with the given values as positional arguments.
    Call(Callee, Vec<usize>),
}

/// A named routine with one double parameter per name.  `result` is the value
/// that the routine returns, once its body has been compiled.
#[derive(Debug, PartialEq, Eq)]
pub struct Routine {
    pub name: String,
    pub params: Vec<String>,
    pub ops: Vec<Op>,
    pub result: Option<usize>,
}

/// A compilation unit.  Routine 0 is the anonymous routine that holds the
/// code of the top-level expressions; the others are function definitions, in
/// the order in which they were compiled.
#[derive(Debug, PartialEq, Eq)]
pub struct Unit {
    pub routines: Vec<Routine>,
}

/// The value of a callee.
pub enum CalleeView {
    Routine(usize),
    Intrinsic(Seq<char>),
}

/// The value of an operation.
pub enum OpView {
    Integer(i64),
    Decimal(Seq<char>),
    Param(usize),
    Alloc,
    Load(Location),
    Store(Location, usize),
    Arith(Operator, usize, usize),
    Call(CalleeView, Seq<usize>),
}

/// The value of a routine.
pub struct RoutineView {
    pub name: Seq<char>,
    pub params: Seq<Seq<char>>,
    pub ops: Seq<OpView>,
    pub result: Option<usize>,
}

impl View for Callee {
    type V = CalleeView;

    open spec fn view(&self) -> CalleeView {
        match self {
            Callee::Routine(index) => CalleeView::Routine(*index),
            Callee::Intrinsic(name) => CalleeView::Intrinsic(name@),
        }
    }
}

impl View for Op {
    type V = OpView;

    open spec fn view(&self) -> OpView {
        match self {
            Op::Integer(n) => OpView::Integer(*n),
            Op::Decimal(text) => OpView::Decimal(text@),
            Op::Param(index) => OpView::Param(*index),
            Op::Alloc => OpView::Alloc,
            Op::Load(location) => OpView::Load(*location),
            Op::Store(location, value) => OpView::Store(*location, *value),
            Op::Arith(operator, lhs, rhs) => OpView::Arith(*operator, *lhs, *rhs),
            Op::Call(callee, args) => OpView::Call(callee@, args@),
        }
    }
}

/// The texts of a sequence of strings.
pub open spec fn texts_of(names: Seq<String>) -> Seq<Seq<char>> {
    names.map_values(|name: String| name@)
}

/// The values of a sequence of operations.
pub open spec fn ops_of(ops: Seq<Op>) -> Seq<OpView> {
    ops.map_values(|op: Op| op@)
}

impl View for Routine {
    type V = RoutineView;

    open spec fn view(&self) -> RoutineView {
        RoutineView {
            name: self.name@,
            params: texts_of(self.params@),
            ops: ops_of(self.ops@),
            result: self.result,
        }
    }
}

impl View for Unit {
    type V = Seq<RoutineView>;

    open spec fn view(&self) -> Seq<RoutineView> {
        self.routines@.map_values(|routine: Routine| routine@)
    }
}

/// The index of the anonymous routine.
pub const ENTRY: usize = 0;

impl RoutineView {
    /// The routine with one more operation at its end.
    pub open spec fn with_op(self, op: OpView) -> RoutineView {
        RoutineView { ops: self.ops.push(op), ..self }
    }

    /// The routine returning the given value.
    pub open spec fn returning(self, value: usize) -> RoutineView {
        RoutineView { result: Some(value), ..self }
    }
}

/// Whether the operation defines a number, rather than a storage location or
/// nothing.
pub open spec fn yields_number(op: OpView) -> bool {
    !(op is Alloc) && !(op is Store)
}

/// Whether `value` names a number defined before operation `at`.
pub open spec fn number_before(routine: RoutineView, at: int, value: usize) -> bool {
    value < at && value < routine.ops.len() && yields_number(routine.ops[value as int])
}

/// Whether `location` is a slot that routine `r` itself allocates before
/// operation `at`.
pub open spec fn slot_before(routine: RoutineView, r: int, at: int, location: Location) -> bool {
    &&& location.routine == r
    &&& location.index < at
    &&& location.index < routine.ops.len()
    &&& routine.ops[location.index as int] is Alloc
}

/// Whether operation `at` of routine `r` is structurally sound: its operands
/// are numbers defined earlier in the same routine, its slot was allocated
/// earlier in the same routine, and a call to a routine of the unit passes as
/// many arguments as that routine has parameters.
pub open spec fn op_sound(unit: Seq<RoutineView>, r: int, at: int) -> bool {
    let routine = unit[r];
    match routine.ops[at] {
        OpView::Integer(_) => true,
        OpView::Decimal(_) => true,
        OpView::Param(index) => index < routine.params.len(),
        OpView::Alloc => true,
        OpView::Load(location) => slot_before(routine, r, at, location),
        OpView::Store(location, value) => slot_before(routine, r, at, location) && number_before(
            routine,
            at,
            value,
        ),
        OpView::Arith(_, lhs, rhs) => number_before(routine, at, lhs) && number_before(
            routine,
            at,
            rhs,
        ),
        OpView::Call(callee, args) => {
            &&& forall|k: int|
                0 <= k < args.len() ==> number_before(routine, at, #[trigger] args[k])
            &&& match callee {
                CalleeView::Routine(target) => {
                    &&& target < unit.len()
                    &&& unit[target as int].params.len() == args.len()
                },
                CalleeView::Intrinsic(_) => true,
            }
        },
    }
}

/// Whether routine `r` of the unit is well formed: every operation is sound
/// and the routine returns a number that it defines.
pub open spec fn routine_sound(unit: Seq<RoutineView>, r: int) -> bool {
    &&& 0 <= r < unit.len()
    &&& forall|at: int| 0 <= at < unit[r].ops.len() ==> op_sound(unit, r, at)
    &&& unit[r].result matches Some(value)
    &&& number_before(unit[r], unit[r].ops.len() as int, value)
}

/// Whether every routine of the unit is well formed, the anonymous one
/// among them.
pub open spec fn unit_sound(unit: Seq<RoutineView>) -> bool {
    &&& unit.len() > 0
    &&& forall|r: int| 0 <= r < unit.len() ==> routine_sound(unit, r)
}

/// Whether every routine but the anonymous one is well formed.
pub open spec fn functions_sound(unit: Seq<RoutineView>) -> bool {
    forall|r: int| 0 < r < unit.len() ==> routine_sound(unit, r)
}

/// The index of the function that a name resolves to: the latest one of
/// that name among the first `upto` routines.  The anonymous routine is no
/// function, whatever its name.
pub open spec fn lookup_routine(unit: Seq<RoutineView>, name: Seq<char>, upto: int) -> Option<usize>
    decreases upto,
{
    if upto <= 1 || upto > unit.len() {
        None
    } else if unit[upto - 1].name == name {
        Some((upto - 1) as usize)
    } else {
        lookup_routine(unit, name, upto - 1)
    }
}

impl Routine {
    /// Whether `value` names a number that the routine defines before
    /// operation `at`.
    pub fn defines_number(&self, at: usize, value: usize) -> (r: bool)
        ensures
            r == number_before(self@, at as int, value),
    {
        if value < at && value < self.ops.len() {
            match &self.ops[value] {
                Op::Alloc => false,
                Op::Store(_, _) => false,
                _ => true,
            }
        } else {
            false
        }
    }

    /// Whether `location` is a slot that the routine, standing at index `r` of
    /// its unit, allocates before operation `at`.
    pub fn allocates(&self, r: usize, at: usize, location: Location) -> (ok: bool)
        ensures
            ok == slot_before(self@, r as int, at as int, location),
    {
        if location.routine == r && location.index < at && location.index < self.ops.len() {
            match &self.ops[location.index] {
                Op::Alloc => true,
                _ => false,
            }
        } else {
            false
        }
    }

    /// Whether every one of `args` names a number that the routine defines
    /// before operation `at`.
    pub fn defines_numbers(&self, at: usize, args: &Vec<usize>) -> (ok: bool)
        ensures
            ok == (forall|k: int|
                0 <= k < args.len() ==> number_before(self@, at as int, #[trigger] args[k])),
    {
        let mut k: usize = 0;
        while k < args.len()
            invariant
                k <= args.len(),
                forall|j: int| 0 <= j < k ==> number_before(self@, at as int, #[trigger] args[j]),
            decreases args.len() - k,
        {
            if !self.defines_number(at, args[k]) {
                return false;
            }
            k = k + 1;
        }
        true
    }
}

impl Unit {
    /// Whether the unit holds its anonymous routine.  A fresh unit does, and
    /// no method takes the routine away.
    pub open spec fn wf(&self) -> bool {
        self@.len() > 0
    }

    /// The value of a fresh unit: the anonymous routine alone, with no code.
    pub open spec fn new_spec() -> Seq<RoutineView> {
        seq![
            RoutineView {
                name: "anon"@,
                params: Seq::<Seq<char>>::empty(),
                ops: Seq::<OpView>::empty(),
                result: None,
            },
        ]
    }

    /// A unit that holds the anonymous routine alone, with no code yet.
    pub fn new() -> (unit: Unit)
        ensures
            unit@ == Unit::new_spec(),
    {
        let entry = Routine {
            name: "anon".to_owned(),
            params: Vec::new(),
            ops: Vec::new(),
            result: None,
        };
        let mut routines: Vec<Routine> = Vec::new();
        routines.push(entry);
        let unit = Unit { routines };
        assert(unit@[0].params =~= Seq::<Seq<char>>::empty());
        assert(unit@[0].ops =~= Seq::<OpView>::empty());
        unit
    }

    /// The number of routines.
    pub fn len(&self) -> (n: usize)
        ensures
            n == self@.len(),
    {
        self.routines.len()
    }

    /// The function that `name` resolves to, if the unit has one of that
    /// name.
    pub fn lookup(&self, name: &String) -> (found: Option<usize>)
        ensures
            found == lookup_routine(self@, name@, self@.len() as int),
    {
        let mut upto: usize = self.routines.len();
        while upto > 1
            invariant
                upto <= self@.len(),
                lookup_routine(self@, name@, self@.len() as int) == lookup_routine(
                    self@,
                    name@,
                    upto as int,
                ),
            decreases upto,
        {
            if self.routines[upto - 1].name == *name {
                return Some(upto - 1);
            }
            upto = upto - 1;
        }
        None
    }

    /// Enters a routine of the given name and parameters, with no code yet,
    /// and returns its index.
    pub fn declare(&mut self, name: String, params: Vec<String>) -> (r: usize)
        ensures
            r == old(self)@.len(),
            final(self)@ == old(self)@.push(
                RoutineView {
                    name: name@,
                    params: texts_of(params@),
                    ops: Seq::<OpView>::empty(),
                    result: None,
                },
            ),
    {
        let r = self.routines.len();
        self.routines.push(Routine { name, params, ops: Vec::new(), result: None });
        assert(self@[r as int].ops =~= Seq::<OpView>::empty());
        r
    }

    /// Appends an operation to routine `r` and returns the index of the value
    /// that it defines.
    pub fn push_op(&mut self, r: usize, op: Op) -> (value: usize)
        requires
            r < old(self)@.len(),
        ensures
            value == old(self)@[r as int].ops.len(),
            final(self)@ == old(self)@.update(r as int, old(self)@[r as int].with_op(op@)),
    {
        let value = self.routines[r].ops.len();
        self.routines[r].ops.push(op);
        assert(self@[r as int].ops =~= old(self)@[r as int].ops.push(op@));
        value
    }

    /// Makes routine `r` return `value`.
    pub fn set_result(&mut self, r: usize, value: usize)
        requires
            r < old(self)@.len(),
        ensures
            final(self)@ == old(self)@.update(r as int, old(self)@[r as int].returning(value)),
    {
        self.routines[r].result = Some(value);
    }

    /// Whether operation `at` of routine `r` is structurally sound.
    pub fn verify_op(&self, r: usize, at: usize) -> (ok: bool)
        requires
            r < self@.len(),
            at < self@[r as int].ops.len(),
        ensures
            ok == op_sound(self@, r as int, at as int),
    {
        let routine = &self.routines[r];
        match &routine.ops[at] {
            Op::Integer(_) => true,
            Op::Decimal(_) => true,
            Op::Param(index) => *index < routine.params.len(),
            Op::Alloc => true,
            Op::Load(location) => routine.allocates(r, at, *location),
            Op::Store(location, value) => routine.allocates(r, at, *location)
                && routine.defines_number(at, *value),
            Op::Arith(_, lhs, rhs) => routine.defines_number(at, *lhs) && routine.defines_number(
                at,
                *rhs,
            ),
            Op::Call(callee, args) => {
                if !routine.defines_numbers(at, args) {
                    false
                } else {
                    match callee {
                        Callee::Routine(target) => {
                            if *target < self.routines.len() {
                                self.routines[*target].params.len() == args.len()
                            } else {
                                false
                            }
                        },
                        Callee::Intrinsic(_) => true,
                    }
                }
            },
        }
    }

    /// Verifies the structure of routine `r`: whether each operation is sound
    /// and the routine returns a number that it defines.
    pub fn verify(&self, r: usize) -> (ok: bool)
        ensures
            ok == routine_sound(self@, r as int),
    {
        if r >= self.routines.len() {
            return false;
        }
        let routine = &self.routines[r];
        let mut at: usize = 0;
        while at < routine.ops.len()
            invariant
                r < self@.len(),
                routine@ == self@[r as int],
                at <= routine.ops.len(),
                forall|k: int| 0 <= k < at ==> op_sound(self@, r as int, k),
            decreases routine.ops.len() - at,
        {
            if !self.verify_op(r, at) {
                return false;
            }
            at = at + 1;
        }
        match routine.result {
            Some(value) => routine.defines_number(routine.ops.len(), value),
            None => false,
        }
    }

    /// Verifies the structure of every routine.
    pub fn verify_all(&self) -> (ok: bool)
        ensures
            ok == unit_sound(self@),
    {
        if self.routines.len() == 0 {
            return false;
        }
        let mut r: usize = 0;
        while r < self.routines.len()
            invariant
                r <= self@.len(),
                self@.len() > 0,
                forall|k: int| 0 <= k < r ==> routine_sound(self@, k),
            decreases self@.len() - r,
        {
            if !self.verify(r) {
                return false;
            }
            r = r + 1;
        }
        true
    }
}

} // verus!
