//! What the library takes from LLVM, through inkwell.  Nothing that is marked
//! `external_body` here is proved: each such item states what the rest of the
//! library believes of one function of inkwell.  Most of them promise nothing
//! of what comes back, since LLVM keeps its state to itself.

use vstd::prelude::*;
use inkwell::basic_block::BasicBlock;
use inkwell::builder::Builder;
use inkwell::context::Context;
use inkwell::intrinsics::Intrinsic;
use inkwell::module::Module;
use inkwell::passes::PassManager;
use inkwell::types::{BasicMetadataTypeEnum, BasicTypeEnum, FloatType, FunctionType};
use inkwell::values::{
    BasicMetadataValueEnum, BasicValueEnum, FloatValue, FunctionValue, InstructionValue,
    PointerValue,
};

verus! {

#[verifier::external_type_specification]
#[verifier::external_body]
pub struct ExContext(Context);

#[verifier::external_type_specification]
#[verifier::external_body]
pub struct ExModule<'ctx>(Module<'ctx>);

#[verifier::external_type_specification]
#[verifier::external_body]
pub struct ExBuilder<'ctx>(Builder<'ctx>);

#[verifier::external_type_specification]
#[verifier::external_body]
#[verifier::reject_recursive_types(T)]
pub struct ExPassManager<T>(PassManager<T>);

#[verifier::external_type_specification]
#[verifier::external_body]
pub struct ExBasicBlock<'ctx>(BasicBlock<'ctx>);

#[verifier::external_type_specification]
#[verifier::external_body]
pub struct ExFloatType<'ctx>(FloatType<'ctx>);

#[verifier::external_type_specification]
#[verifier::external_body]
pub struct ExFunctionType<'ctx>(FunctionType<'ctx>);

#[verifier::external_type_specification]
#[verifier::external_body]
pub struct ExBasicMetadataTypeEnum<'ctx>(BasicMetadataTypeEnum<'ctx>);

#[verifier::external_type_specification]
#[verifier::external_body]
pub struct ExBasicTypeEnum<'ctx>(BasicTypeEnum<'ctx>);

#[verifier::external_type_specification]
#[verifier::external_body]
pub struct ExBasicMetadataValueEnum<'ctx>(BasicMetadataValueEnum<'ctx>);

#[verifier::external_type_specification]
#[verifier::external_body]
pub struct ExFloatValue<'ctx>(FloatValue<'ctx>);

#[verifier::external_type_specification]
#[verifier::external_body]
pub struct ExFunctionValue<'ctx>(FunctionValue<'ctx>);

#[verifier::external_type_specification]
#[verifier::external_body]
pub struct ExInstructionValue<'ctx>(InstructionValue<'ctx>);

#[verifier::external_type_specification]
#[verifier::external_body]
pub struct ExPointerValue<'ctx>(PointerValue<'ctx>);

#[verifier::external_type_specification]
#[verifier::external_body]
pub struct ExIntrinsic(Intrinsic);

/// A function of LLVM that takes doubles and gives a double.  Only this file
/// makes one: from a type that `function_type` built, or from a declaration
/// whose type is the same as such a type.
#[derive(Clone, Copy)]
pub struct NumberFunction<'ctx> {
    function: FunctionValue<'ctx>,
}

/// A stack slot of LLVM for one double.  Only `build_alloca` makes one.
#[derive(Clone, Copy)]
pub struct Slot<'ctx> {
    pointer: PointerValue<'ctx>,
}

impl<'ctx> NumberFunction<'ctx> {
    /// The function as LLVM knows it.
    pub closed spec fn handle(self) -> FunctionValue<'ctx> {
        self.function
    }

    /// The function as LLVM knows it.
    pub fn function(&self) -> (function: FunctionValue<'ctx>)
        ensures
            function == self.handle(),
    {
        self.function
    }
}

/// Whether the LLVM that the library is linked with knows an intrinsic of
/// this name.
pub uninterp spec fn host_intrinsic(name: Seq<char>) -> bool;

/// `Intrinsic::find`: looks a name up in the table of intrinsics of the LLVM
/// that the library is linked with.  The table is fixed, so whether an
/// intrinsic comes back depends on the name alone.
#[verifier::external_body]
pub(crate) fn find_intrinsic(name: &str) -> (found: Option<Intrinsic>)
    ensures
        found.is_some() == host_intrinsic(name@),
{
    Intrinsic::find(name)
}

/// `Context::f64_type`: the type of doubles.
#[verifier::external_body]
pub(crate) fn number_type<'ctx>(context: &'ctx Context) -> FloatType<'ctx> {
    context.f64_type()
}

/// The variant `BasicMetadataTypeEnum::FloatType`: a float type as the type
/// of a parameter.
#[verifier::external_body]
pub(crate) fn parameter_type<'ctx>(number: FloatType<'ctx>) -> BasicMetadataTypeEnum<'ctx> {
    BasicMetadataTypeEnum::FloatType(number)
}

/// The variant `BasicTypeEnum::FloatType`: a float type as the type that an
/// overloaded intrinsic is declared for.
#[verifier::external_body]
pub(crate) fn overload_type<'ctx>(number: FloatType<'ctx>) -> BasicTypeEnum<'ctx> {
    BasicTypeEnum::FloatType(number)
}

/// The variant `BasicMetadataValueEnum::FloatValue`: a float value as the
/// argument of a call.
#[verifier::external_body]
pub(crate) fn argument<'ctx>(value: FloatValue<'ctx>) -> BasicMetadataValueEnum<'ctx> {
    BasicMetadataValueEnum::FloatValue(value)
}

/// `FloatType::fn_type`: the type of the functions that take `params` and
/// give a `number`.
#[verifier::external_body]
pub(crate) fn function_type<'ctx>(
    number: FloatType<'ctx>,
    params: &Vec<BasicMetadataTypeEnum<'ctx>>,
) -> FunctionType<'ctx> {
    number.fn_type(params.as_slice(), false)
}

/// `Module::add_function`: adds a function of the given name and type to the
/// module.  Where the module has the name already, LLVM gives the new
/// function another one.  The type comes from `function_type`, so the
/// function takes doubles and gives a double.
#[verifier::external_body]
pub(crate) fn add_function<'ctx>(
    module: &Module<'ctx>,
    name: &str,
    ty: FunctionType<'ctx>,
) -> NumberFunction<'ctx> {
    NumberFunction { function: module.add_function(name, ty, None) }
}

/// `FunctionValue::get_nth_param`: the parameter with the given index, where
/// the function has that many and it is a float.  The count that inkwell
/// compares the index with is `nth + 1`, which must not overflow.
#[verifier::external_body]
pub(crate) fn nth_param<'ctx>(function: NumberFunction<'ctx>, nth: u32) -> Option<FloatValue<'ctx>>
    requires
        nth < u32::MAX,
{
    match function.function.get_nth_param(nth) {
        Some(BasicValueEnum::FloatValue(value)) => Some(value),
        _ => None,
    }
}

/// `FloatValue::set_name`: names a value in the printed code.
#[verifier::external_body]
pub(crate) fn set_name<'ctx>(value: FloatValue<'ctx>, name: &str) {
    value.set_name(name)
}

/// `Context::append_basic_block`: a new block at the end of the function.
#[verifier::external_body]
pub(crate) fn append_basic_block<'ctx>(
    context: &'ctx Context,
    function: NumberFunction<'ctx>,
    name: &str,
) -> BasicBlock<'ctx> {
    context.append_basic_block(function.function, name)
}

/// `Context::create_builder`: a builder that stands nowhere yet.
#[verifier::external_body]
pub(crate) fn create_builder<'ctx>(context: &'ctx Context) -> Builder<'ctx> {
    context.create_builder()
}

/// `FunctionValue::get_first_basic_block`: the first block of the function,
/// if it has one.
#[verifier::external_body]
pub(crate) fn first_basic_block<'ctx>(function: NumberFunction<'ctx>) -> Option<BasicBlock<'ctx>> {
    function.function.get_first_basic_block()
}

/// `BasicBlock::get_first_instruction`: the first instruction of the block,
/// if it has one.
#[verifier::external_body]
pub(crate) fn first_instruction<'ctx>(block: BasicBlock<'ctx>) -> Option<InstructionValue<'ctx>> {
    block.get_first_instruction()
}

/// `Builder::position_before`: makes the builder insert before the
/// instruction.
#[verifier::external_body]
pub(crate) fn position_before<'ctx>(builder: &Builder<'ctx>, instruction: &InstructionValue<'ctx>) {
    builder.position_before(instruction)
}

/// `Builder::position_at_end`: makes the builder insert at the end of the
/// block.
#[verifier::external_body]
pub(crate) fn position_at_end<'ctx>(builder: &Builder<'ctx>, block: BasicBlock<'ctx>) {
    builder.position_at_end(block)
}

/// `Builder::build_alloca`: a stack slot for one value of the given type,
/// which is the type of doubles.
#[verifier::external_body]
pub(crate) fn build_alloca<'ctx>(
    builder: &Builder<'ctx>,
    number: FloatType<'ctx>,
    name: &str,
) -> Slot<'ctx> {
    Slot { pointer: builder.build_alloca(number, name) }
}

/// `Builder::build_store`: writes the value to the slot.
#[verifier::external_body]
pub(crate) fn build_store<'ctx>(
    builder: &Builder<'ctx>,
    slot: Slot<'ctx>,
    value: FloatValue<'ctx>,
) {
    builder.build_store(slot.pointer, value);
}

/// `Builder::build_load`: the value that the slot holds, where it is a
/// float.
#[verifier::external_body]
pub(crate) fn build_load<'ctx>(builder: &Builder<'ctx>, slot: Slot<'ctx>, name: &str) -> Option<
    FloatValue<'ctx>,
> {
    match builder.build_load(slot.pointer, name) {
        BasicValueEnum::FloatValue(value) => Some(value),
        _ => None,
    }
}

/// `FloatType::const_float_from_string`: the constant that a decimal text
/// stands for.  LLVM reports no error for a text that is no number.
#[verifier::external_body]
pub(crate) fn const_float_from_string<'ctx>(number: FloatType<'ctx>, text: &str) -> FloatValue<
    'ctx,
> {
    number.const_float_from_string(text)
}

/// `Builder::build_float_add`: the sum of two values.
#[verifier::external_body]
pub(crate) fn build_float_add<'ctx>(
    builder: &Builder<'ctx>,
    lhs: FloatValue<'ctx>,
    rhs: FloatValue<'ctx>,
    name: &str,
) -> FloatValue<'ctx> {
    builder.build_float_add(lhs, rhs, name)
}

/// `Builder::build_float_sub`: the difference of two values.
#[verifier::external_body]
pub(crate) fn build_float_sub<'ctx>(
    builder: &Builder<'ctx>,
    lhs: FloatValue<'ctx>,
    rhs: FloatValue<'ctx>,
    name: &str,
) -> FloatValue<'ctx> {
    builder.build_float_sub(lhs, rhs, name)
}

/// `Builder::build_float_mul`: the product of two values.
#[verifier::external_body]
pub(crate) fn build_float_mul<'ctx>(
    builder: &Builder<'ctx>,
    lhs: FloatValue<'ctx>,
    rhs: FloatValue<'ctx>,
    name: &str,
) -> FloatValue<'ctx> {
    builder.build_float_mul(lhs, rhs, name)
}

/// `Builder::build_float_div`: the quotient of two values.
#[verifier::external_body]
pub(crate) fn build_float_div<'ctx>(
    builder: &Builder<'ctx>,
    lhs: FloatValue<'ctx>,
    rhs: FloatValue<'ctx>,
    name: &str,
) -> FloatValue<'ctx> {
    builder.build_float_div(lhs, rhs, name)
}

/// `Builder::build_float_rem`: the remainder of two values.
#[verifier::external_body]
pub(crate) fn build_float_rem<'ctx>(
    builder: &Builder<'ctx>,
    lhs: FloatValue<'ctx>,
    rhs: FloatValue<'ctx>,
    name: &str,
) -> FloatValue<'ctx> {
    builder.build_float_rem(lhs, rhs, name)
}

/// `Intrinsic::get_declaration`: the declaration of the intrinsic for the
/// given types, in the module, if LLVM gives one.
#[verifier::external_body]
pub(crate) fn get_declaration<'ctx>(
    intrinsic: &Intrinsic,
    module: &Module<'ctx>,
    types: &Vec<BasicTypeEnum<'ctx>>,
) -> Option<FunctionValue<'ctx>> {
    intrinsic.get_declaration(module, types.as_slice())
}

/// `FunctionValue::get_type`: the type of the function.
#[verifier::external_body]
pub(crate) fn type_of<'ctx>(function: FunctionValue<'ctx>) -> FunctionType<'ctx> {
    function.get_type()
}

/// The `==` of `FunctionType`: whether the two are the same type of LLVM.
#[verifier::external_body]
pub(crate) fn same_type<'ctx>(a: FunctionType<'ctx>, b: FunctionType<'ctx>) -> bool {
    a == b
}

/// `Builder::build_call`: a call of the function with the arguments; its
/// result, where it is a float.
#[verifier::external_body]
pub(crate) fn build_call<'ctx>(
    builder: &Builder<'ctx>,
    function: NumberFunction<'ctx>,
    args: &Vec<BasicMetadataValueEnum<'ctx>>,
    name: &str,
) -> Option<FloatValue<'ctx>> {
    match builder.build_call(function.function, args.as_slice(), name).try_as_basic_value().left() {
        Some(BasicValueEnum::FloatValue(value)) => Some(value),
        _ => None,
    }
}

/// `Builder::build_return`: returns the value from the function.
#[verifier::external_body]
pub(crate) fn build_return<'ctx>(builder: &Builder<'ctx>, value: FloatValue<'ctx>) {
    builder.build_return(Some(&value));
}

/// `FunctionValue::verify`: whether LLVM finds the function well formed.
/// What it finds wrong goes to the standard error stream.
#[verifier::external_body]
pub(crate) fn verify<'ctx>(function: NumberFunction<'ctx>) -> bool {
    function.function.verify(true)
}

/// `PassManager::run_on`: runs the passes of the manager on the function;
/// whether any of them changed it.
#[verifier::external_body]
pub(crate) fn run_on<'ctx>(
    fpm: &PassManager<FunctionValue<'ctx>>,
    function: NumberFunction<'ctx>,
) -> bool {
    fpm.run_on(&function.function)
}

/// The declaration of an intrinsic for `arity` doubles, if LLVM gives one and
/// it takes that many doubles and gives a double.
pub(crate) fn number_intrinsic<'ctx>(
    context: &'ctx Context,
    module: &Module<'ctx>,
    intrinsic: &Intrinsic,
    arity: usize,
) -> Option<NumberFunction<'ctx>> {
    let number = number_type(context);
    let mut types: Vec<BasicTypeEnum<'ctx>> = Vec::new();
    let mut params: Vec<BasicMetadataTypeEnum<'ctx>> = Vec::new();
    let mut i: usize = 0;
    while i < arity
        invariant
            i <= arity,
        decreases arity - i,
    {
        types.push(overload_type(number));
        params.push(parameter_type(number));
        i = i + 1;
    }
    match get_declaration(intrinsic, module, &types) {
        Some(function) => {
            of_type(function, same_type(type_of(function), function_type(number, &params)))
        },
        None => None,
    }
}

/// A declaration as a function from doubles to a double, where its type was
/// found to be the type of such functions; nothing where it was not.
fn of_type<'ctx>(function: FunctionValue<'ctx>, fits: bool) -> (found: Option<NumberFunction<'ctx>>)
    ensures
        found == (if fits {
            Some(NumberFunction { function })
        } else {
            None
        }),
{
    if fits {
        Some(NumberFunction { function })
    } else {
        None
    }
}

} // verus!
