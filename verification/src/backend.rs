//! The backend: plays a compilation unit into an LLVM module, one LLVM
//! function per routine and one instruction per operation.

use vstd::prelude::*;
use inkwell::builder::Builder;
use inkwell::context::Context;
use inkwell::module::Module;
use inkwell::passes::PassManager;
use inkwell::types::{BasicMetadataTypeEnum, FloatType};
use inkwell::values::{BasicMetadataValueEnum, FloatValue, FunctionValue};
use crate::llvm::{
    add_function, append_basic_block, argument, build_alloca, build_call, build_float_add,
    build_float_div, build_float_mul, build_float_rem, build_float_sub, build_load, build_return,
    build_store, const_float_from_string, create_builder, find_intrinsic, first_basic_block,
    first_instruction, function_type, nth_param, number_intrinsic, number_type, parameter_type,
    position_at_end, position_before, run_on, set_name, verify, NumberFunction, Slot,
};
use crate::unit::{
    number_before, op_sound, routine_sound, unit_sound, Callee, CalleeView, Op, OpView, Operator,
    Routine, RoutineView, Unit, ENTRY,
};
use crate::writer::decimal_text;

verus! {

/// Why a unit could not be played into LLVM.
#[derive(Debug, PartialEq, Eq)]
pub enum BackendError {
    /// The unit is not well formed: one of its routines is not, or it has
    /// none.
    Malformed,
    /// The routine with this index is the first that has more parameters
    /// than LLVM counts.
    TooManyParameters(usize),
    /// The host has no intrinsic of this name that takes as many doubles as
    /// the call passes and gives a double.
    NoIntrinsic(String),
    /// LLVM found the function of the routine with this index not well
    /// formed, or did not hand out what the routine needs.
    Rejected(usize),
}

/// The number of parameters from which on LLVM cannot count them.
pub const PARAMETER_LIMIT: usize = 0xffff_ffff;

/// Whether LLVM can count the parameters of every routine.
pub open spec fn within_limits(unit: Seq<RoutineView>) -> bool {
    forall|r: int| 0 <= r < unit.len() ==> (#[trigger] unit[r]).params.len() < PARAMETER_LIMIT
}

/// The first routine with more parameters than LLVM counts, if there is one.
fn first_oversized(unit: &Unit) -> (found: Option<usize>)
    ensures
        match found {
            Some(r) => {
                &&& r < unit@.len()
                &&& unit@[r as int].params.len() >= PARAMETER_LIMIT
                &&& forall|k: int|
                    0 <= k < r ==> (#[trigger] unit@[k]).params.len() < PARAMETER_LIMIT
            },
            None => within_limits(unit@),
        },
{
    let mut r: usize = 0;
    while r < unit.routines.len()
        invariant
            r <= unit@.len(),
            forall|k: int| 0 <= k < r ==> (#[trigger] unit@[k]).params.len() < PARAMETER_LIMIT,
        decreases unit@.len() - r,
    {
        if unit.routines[r].params.len() >= PARAMETER_LIMIT {
            return Some(r);
        }
        r = r + 1;
    }
    None
}

/// What LLVM's verdict on the function of a routine means for the routine.
pub fn verdict(routine: usize, well_formed: bool) -> (outcome: Result<(), BackendError>)
    ensures
        outcome == (if well_formed {
            Ok::<(), BackendError>(())
        } else {
            Err::<(), BackendError>(BackendError::Rejected(routine))
        }),
{
    if well_formed {
        Ok(())
    } else {
        Err(BackendError::Rejected(routine))
    }
}

/// What an operation has become in LLVM.
#[derive(Clone, Copy)]
enum Emitted<'ctx> {
    Number(FloatValue<'ctx>),
    Location(Slot<'ctx>),
    Nothing,
}

/// Whether what was emitted for an operation is of the kind that the
/// operation defines.
spec fn fits(op: OpView, emitted: Emitted<'_>) -> bool {
    match op {
        OpView::Alloc => emitted is Location,
        OpView::Store(_, _) => emitted is Nothing,
        _ => emitted is Number,
    }
}

/// Declares an LLVM function for a routine: one double per parameter, a
/// double as the result, and the parameters named as in the routine.
fn compile_prototype<'ctx>(
    context: &'ctx Context,
    module: &Module<'ctx>,
    routine: &Routine,
    r: usize,
) -> (outcome: Result<NumberFunction<'ctx>, BackendError>)
    requires
        routine.params.len() < PARAMETER_LIMIT,
    ensures
        outcome matches Err(error) ==> error == BackendError::Rejected(r),
        routine.params.len() == 0 ==> outcome is Ok,
{
    let number = number_type(context);
    let mut types: Vec<BasicMetadataTypeEnum<'ctx>> = Vec::new();
    let mut i: usize = 0;
    while i < routine.params.len()
        invariant
            i <= routine.params.len(),
        decreases routine.params.len() - i,
    {
        types.push(parameter_type(number));
        i = i + 1;
    }
    let function = add_function(module, routine.name.as_str(), function_type(number, &types));
    let mut k: usize = 0;
    while k < routine.params.len()
        invariant
            k <= routine.params.len(),
            routine.params.len() < PARAMETER_LIMIT,
        decreases routine.params.len() - k,
    {
        match nth_param(function, k as u32) {
            Some(param) => {
                set_name(param, routine.params[k].as_str());
            },
            None => {
                return Err(BackendError::Rejected(r));
            },
        }
        k = k + 1;
    }
    Ok(function)
}

/// Allocates a stack slot for one double at the start of the entry block of
/// the function.
fn create_entry_block_alloca<'ctx>(
    context: &'ctx Context,
    function: NumberFunction<'ctx>,
    number: FloatType<'ctx>,
) -> Option<Slot<'ctx>> {
    let builder = create_builder(context);
    match first_basic_block(function) {
        Some(entry) => {
            match first_instruction(entry) {
                Some(first) => position_before(&builder, &first),
                None => position_at_end(&builder, entry),
            }
            Some(build_alloca(&builder, number, "slot"))
        },
        None => None,
    }
}

/// The number that was emitted for value `value`.
fn number_at<'ctx>(emitted: &Vec<Emitted<'ctx>>, value: usize) -> (number: FloatValue<'ctx>)
    requires
        value < emitted.len(),
        emitted[value as int] is Number,
    ensures
        emitted[value as int] == Emitted::Number(number),
{
    match emitted[value] {
        Emitted::Number(number) => number,
        _ => vstd::pervasive::unreached(),
    }
}

/// The slot that was emitted for the allocation at `index`.
fn slot_at<'ctx>(emitted: &Vec<Emitted<'ctx>>, index: usize) -> (slot: Slot<'ctx>)
    requires
        index < emitted.len(),
        emitted[index as int] is Location,
    ensures
        emitted[index as int] == Emitted::Location(slot),
{
    match emitted[index] {
        Emitted::Location(slot) => slot,
        _ => vstd::pervasive::unreached(),
    }
}

/// Emits one arithmetic instruction.
fn build_arithmetic<'ctx>(
    builder: &Builder<'ctx>,
    operator: Operator,
    lhs: FloatValue<'ctx>,
    rhs: FloatValue<'ctx>,
) -> FloatValue<'ctx> {
    match operator {
        Operator::Add => build_float_add(builder, lhs, rhs, "tmpadd"),
        Operator::Sub => build_float_sub(builder, lhs, rhs, "tmpsub"),
        Operator::Mul => build_float_mul(builder, lhs, rhs, "tmpmul"),
        Operator::Div => build_float_div(builder, lhs, rhs, "tmpdiv"),
        Operator::Rem => build_float_rem(builder, lhs, rhs, "tmprem"),
    }
}

/// Emits the code of routine `r` into its LLVM function, ends it with the
/// return of its result, and has LLVM verify the function and run the passes
/// on it.
fn emit_routine<'ctx>(
    unit: &Unit,
    r: usize,
    functions: &Vec<NumberFunction<'ctx>>,
    context: &'ctx Context,
    module: &Module<'ctx>,
    builder: &Builder<'ctx>,
    fpm: &PassManager<FunctionValue<'ctx>>,
) -> (outcome: Result<(), BackendError>)
    requires
        routine_sound(unit@, r as int),
        within_limits(unit@),
        functions.len() == unit@.len(),
    ensures
        outcome matches Err(error) ==> error is NoIntrinsic || error == BackendError::Rejected(r),
        outcome is Ok ==> intrinsics_known(unit@, r as int, unit@[r as int].ops.len() as int),
        outcome matches Err(error) ==> misses_in(unit@, r as int, error),
{
    let routine = &unit.routines[r];
    let function = functions[r];
    let number = number_type(context);
    let entry = append_basic_block(context, function, "entry");
    position_at_end(builder, entry);
    let mut emitted: Vec<Emitted<'ctx>> = Vec::new();
    let mut at: usize = 0;
    while at < routine.ops.len()
        invariant
            at <= routine.ops.len(),
            routine_sound(unit@, r as int),
            routine@.params.len() < PARAMETER_LIMIT,
            routine@ == unit@[r as int],
            functions.len() == unit@.len(),
            emitted.len() == at,
            forall|k: int| 0 <= k < at ==> fits(routine.ops[k]@, #[trigger] emitted[k]),
            intrinsics_known(unit@, r as int, at as int),
        decreases routine.ops.len() - at,
    {
        assert(op_sound(unit@, r as int, at as int));
        assert(unit@[r as int].ops[at as int] == routine.ops[at as int]@);
        let next = match &routine.ops[at] {
            Op::Integer(n) => {
                let text = decimal_text(*n);
                Emitted::Number(const_float_from_string(number, text.as_str()))
            },
            Op::Decimal(text) => Emitted::Number(const_float_from_string(number, text.as_str())),
            Op::Param(index) => {
                match nth_param(function, *index as u32) {
                    Some(param) => Emitted::Number(param),
                    None => {
                        return Err(BackendError::Rejected(r));
                    },
                }
            },
            Op::Alloc => match create_entry_block_alloca(context, function, number) {
                Some(slot) => Emitted::Location(slot),
                None => {
                    return Err(BackendError::Rejected(r));
                },
            },
            Op::Load(location) => {
                match build_load(builder, slot_at(&emitted, location.index), "load") {
                    Some(value) => Emitted::Number(value),
                    None => {
                        return Err(BackendError::Rejected(r));
                    },
                }
            },
            Op::Store(location, value) => {
                build_store(
                    builder,
                    slot_at(&emitted, location.index),
                    number_at(&emitted, *value),
                );
                Emitted::Nothing
            },
            Op::Arith(operator, lhs, rhs) => {
                Emitted::Number(
                    build_arithmetic(
                        builder,
                        *operator,
                        number_at(&emitted, *lhs),
                        number_at(&emitted, *rhs),
                    ),
                )
            },
            Op::Call(callee, args) => {
                assert forall|j: int| 0 <= j < args@.len() implies number_before(
                    routine@,
                    at as int,
                    #[trigger] args@[j],
                ) by {
                    assert(unit@[r as int].ops[at as int]->Call_1 == args@);
                }
                let mut values: Vec<BasicMetadataValueEnum<'ctx>> = Vec::new();
                let mut k: usize = 0;
                while k < args.len()
                    invariant
                        k <= args.len(),
                        at < routine.ops.len(),
                        emitted.len() == at,
                        forall|j: int|
                            0 <= j < args@.len() ==> number_before(
                                routine@,
                                at as int,
                                #[trigger] args@[j],
                            ),
                        forall|j: int| 0 <= j < at ==> fits(routine.ops[j]@, #[trigger] emitted[j]),
                    decreases args.len() - k,
                {
                    values.push(argument(number_at(&emitted, args[k])));
                    k = k + 1;
                }
                let target = match callee {
                    Callee::Routine(index) => functions[*index],
                    Callee::Intrinsic(name) => {
                        let found = match find_intrinsic(name.as_str()) {
                            Some(intrinsic) => number_intrinsic(
                                context,
                                module,
                                &intrinsic,
                                args.len(),
                            ),
                            None => None,
                        };
                        match found {
                            Some(function) => function,
                            None => {
                                let error = BackendError::NoIntrinsic(name.clone());
                                assert(calls_intrinsic(
                                    unit@,
                                    r as int,
                                    at as int,
                                    error->NoIntrinsic_0@,
                                ));
                                return Err(error);
                            },
                        }
                    },
                };
                match build_call(builder, target, &values, "tmpcall") {
                    Some(value) => Emitted::Number(value),
                    None => {
                        return Err(BackendError::Rejected(r));
                    },
                }
            },
        };
        emitted.push(next);
        at = at + 1;
    }
    match routine.result {
        Some(value) => {
            build_return(builder, number_at(&emitted, value));
        },
        None => {
            return Err(BackendError::Rejected(r));
        },
    }
    match verdict(r, verify(function)) {
        Ok(_) => {
            run_on(fpm, function);
            Ok(())
        },
        Err(error) => Err(error),
    }
}

/// Plays the unit into the module: declares one LLVM function per routine,
/// then emits the code of each and has LLVM verify it.  Gives the function
/// of the anonymous routine, which the caller may execute.  A unit that is
/// not well formed is refused before anything is emitted; every other
/// failure is LLVM's and leaves the module with what was emitted up to
/// there.  Where the unit calls an intrinsic that the host does not know,
/// the outcome is an error, and an error that reports a missing intrinsic
/// names one that the unit calls.
pub fn emit<'ctx>(
    unit: &Unit,
    context: &'ctx Context,
    builder: &Builder<'ctx>,
    fpm: &PassManager<FunctionValue<'ctx>>,
    module: &Module<'ctx>,
) -> (outcome: Result<FunctionValue<'ctx>, BackendError>)
    ensures
        outcome matches Err(BackendError::Malformed) <==> !unit_sound(unit@),
        outcome matches Err(BackendError::TooManyParameters(_)) <==> unit_sound(unit@)
            && !within_limits(unit@),
        outcome matches Err(BackendError::TooManyParameters(r)) ==> {
            &&& r < unit@.len()
            &&& unit@[r as int].params.len() >= PARAMETER_LIMIT
            &&& forall|k: int| 0 <= k < r ==> (#[trigger] unit@[k]).params.len() < PARAMETER_LIMIT
        },
        outcome is Ok ==> all_intrinsics_known(unit@),
        outcome matches Err(error) ==> misses(unit@, error),
{
    if !unit.verify_all() {
        return Err(BackendError::Malformed);
    }
    match first_oversized(unit) {
        Some(r) => {
            return Err(BackendError::TooManyParameters(r));
        },
        None => {},
    }
    let mut functions: Vec<NumberFunction<'ctx>> = Vec::new();
    let mut r: usize = 0;
    while r < unit.routines.len()
        invariant
            r <= unit@.len(),
            unit_sound(unit@),
            within_limits(unit@),
            functions.len() == r,
        decreases unit@.len() - r,
    {
        assert(unit.routines[r as int]@ == unit@[r as int]);
        match compile_prototype(context, module, &unit.routines[r], r) {
            Ok(function) => {
                functions.push(function);
            },
            Err(error) => {
                return Err(error);
            },
        }
        r = r + 1;
    }
    let mut r: usize = 0;
    while r < unit.routines.len()
        invariant
            r <= unit@.len(),
            unit_sound(unit@),
            within_limits(unit@),
            functions.len() == unit@.len(),
            forall|k: int|
                0 <= k < r ==> #[trigger] intrinsics_known(unit@, k, unit@[k].ops.len() as int),
        decreases unit@.len() - r,
    {
        match emit_routine(unit, r, &functions, context, module, builder, fpm) {
            Ok(_) => {},
            Err(error) => {
                return Err(error);
            },
        }
        r = r + 1;
    }
    Ok(functions[ENTRY].function())
}

/// Whether operation `at` of routine `r` calls the intrinsic of this name.
pub open spec fn calls_intrinsic(unit: Seq<RoutineView>, r: int, at: int, name: Seq<char>) -> bool {
    &&& 0 <= r < unit.len()
    &&& 0 <= at < unit[r].ops.len()
    &&& unit[r].ops[at] matches OpView::Call(CalleeView::Intrinsic(called), _)
    &&& called == name
}

/// Whether the host knows every intrinsic that routine `r` calls among its
/// first `upto` operations.
pub open spec fn intrinsics_known(unit: Seq<RoutineView>, r: int, upto: int) -> bool {
    forall|at: int, name: Seq<char>|
        0 <= at < upto && #[trigger] calls_intrinsic(unit, r, at, name)
            ==> crate::llvm::host_intrinsic(name)
}

/// Whether the host knows every intrinsic that the unit calls.
pub open spec fn all_intrinsics_known(unit: Seq<RoutineView>) -> bool {
    forall|r: int|
        0 <= r < unit.len() ==> #[trigger] intrinsics_known(unit, r, unit[r].ops.len() as int)
}

/// Whether the error, where it says that an intrinsic is missing, names one
/// that the unit calls.
pub open spec fn misses(unit: Seq<RoutineView>, error: BackendError) -> bool {
    error matches BackendError::NoIntrinsic(name) ==> exists|r: int, at: int|
        #[trigger] calls_intrinsic(unit, r, at, name@)
}

/// Whether the error, where it says that an intrinsic is missing, names one
/// that routine `r` calls.
pub open spec fn misses_in(unit: Seq<RoutineView>, r: int, error: BackendError) -> bool {
    error matches BackendError::NoIntrinsic(name) ==> exists|at: int|
        #[trigger] calls_intrinsic(unit, r, at, name@)
}

} // verus!
