use inkwell::context::Context;
use inkwell::module::Module;
use inkwell::passes::PassManager;
use inkwell::values::FunctionValue;
use lisp_repl::backend::verdict;
use lisp_repl::{
    emit, read, BackendError, Callee, Compiler, Op, Outcome, Routine, Session, SymbolTable, Unit,
};

/// The constant that the function returns, if it returns one.
fn returned(function: FunctionValue) -> Option<f64> {
    let block = function.get_first_basic_block()?;
    let ret = block.get_terminator()?;
    let operand = ret.get_operand(0)?.left()?;
    if !operand.is_float_value() {
        return None;
    }
    operand.into_float_value().get_constant().map(|(value, _)| value)
}

/// Plays the unit into a module of its own, has LLVM inline and fold the
/// code, and gives the constant that is left.
fn run(unit: &Unit) -> Result<f64, BackendError> {
    let context = Context::create();
    let module = context.create_module("repl");
    let builder = context.create_builder();
    let fpm = PassManager::create(&module);
    let function = emit(unit, &context, &builder, &fpm, &module)?;
    let passes: PassManager<Module> = PassManager::create(());
    passes.add_function_inlining_pass();
    passes.add_promote_memory_to_register_pass();
    passes.add_instruction_combining_pass();
    passes.add_sccp_pass();
    passes.run_on(&module);
    Ok(returned(function).expect("the code did not fold to a constant"))
}

/// Reads and compiles the text alone, and gives the value that LLVM's builder
/// has folded the code to.
fn eval(text: &str) -> Result<f64, String> {
    let expr = read(text).map_err(|error| format!("{:?}", error))?;
    let compiler = Compiler::compile(Unit::new(), &expr, SymbolTable::new())
        .map_err(|error| format!("{:?}", error))?;
    let context = Context::create();
    let module = context.create_module("repl");
    let builder = context.create_builder();
    let fpm = PassManager::create(&module);
    let function = emit(&compiler.unit, &context, &builder, &fpm, &module)
        .map_err(|error| format!("{:?}", error))?;
    returned(function).ok_or("the code did not fold to a constant".to_string())
}

/// Takes the text through the session, and runs it where it is an
/// expression.
fn submit(session: &mut Session, text: &str) -> Option<f64> {
    match session.submit(read(text).unwrap()).unwrap() {
        Outcome::Defined => None,
        Outcome::Expression(unit) => Some(run(&unit).unwrap()),
    }
}

#[test]
fn test_addition() {
    let input = "(+ 3.2 4.5)";
    let expected = 7.7;
    let result = eval(input).unwrap();
    assert!((result - expected).abs() < f64::EPSILON);
}

#[test]
fn test_subtraction() {
    let input = "(- 7.0 2.5)";
    let expected = 4.5;
    let result = eval(input).unwrap();
    assert!((result - expected).abs() < f64::EPSILON);
}

#[test]
fn test_multiplication() {
    let input = "(* 2.0 3.5)";
    let expected = 7.0;
    let result = eval(input).unwrap();
    assert!((result - expected).abs() < f64::EPSILON);
}

#[test]
fn test_division() {
    let input = "(/ 10.0 2.0)";
    let expected = 5.0;
    let result = eval(input).unwrap();
    assert!((result - expected).abs() < f64::EPSILON);
}

#[test]
fn test_nested_operations() {
    let input = "(+ (* 2.0 3.0) (- 10.0 4.0))";
    let expected = 12.0;
    let result = eval(input).unwrap();
    assert!((result - expected).abs() < f64::EPSILON);
}

#[test]
fn test_complex_nested_operations() {
    let input = "(/ (* (- 8.0 2.0) (+ 1.5 2.5)) 10.0)";
    let expected = 2.4;
    let result = eval(input).unwrap();
    assert!((result - expected).abs() < f64::EPSILON);
}

#[test]
fn test_variadic_eval() {
    let test_cases = vec![
        ("(+ 1 2 3)", 6.0),
        ("(* 2 3 4)", 24.0),
        ("(- 10 2 3)", 5.0),
        ("(/ 12 2 2)", 3.0),
        ("(+ 1.5 2.5 3)", 7.0),
        ("(* 1.5 2 3)", 9.0),
        ("(- 5.5 2.5 1)", 2.0),
        ("(/ 6.0 2 1.5)", 2.0),
        ("(+ 1 (* 2 3))", 7.0),
        ("(* (- 5 2) (+ 2 3))", 15.0),
        ("(- (/ 24 2) (* 2 3 1))", 6.0),
    ];

    for (i, (input, expected)) in test_cases.into_iter().enumerate() {
        let expr = read(input).unwrap();
        let result = eval(input).unwrap();

        assert!(
            result == expected,
            "Test case {}: failed on input '{}' ({:?}), expected {}, got {}",
            i + 1,
            input,
            expr,
            expected,
            result
        );
    }
}

#[test]
fn single_argument_fold_is_the_argument() {
    assert_eq!(eval("(+ 5)"), Ok(5.0));
    assert_eq!(eval("(/ 5)"), Ok(5.0));
    assert_eq!(eval("(% 7.5)"), Ok(7.5));
}

#[test]
fn remainder_folds_from_the_left() {
    assert_eq!(eval("(% 17 5)"), Ok(2.0));
    assert_eq!(eval("(% 17 5 2)"), Ok(0.0));
}

#[test]
fn integer_constants_reach_llvm_exactly() {
    assert_eq!(eval("9223372036854775807"), Ok(i64::MAX as f64));
    assert_eq!(eval("-9223372036854775808"), Ok(i64::MIN as f64));
    assert_eq!(eval("-7"), Ok(-7.0));
    assert_eq!(eval("0"), Ok(0.0));
}

#[test]
fn decimal_constants_reach_llvm_as_rust_reads_them() {
    for text in ["3.14", "-3.14", "5.", "0.1", "123456789012345678901234567890", "1.7976931348623157"] {
        assert_eq!(eval(text), Ok(text.parse::<f64>().unwrap()), "{}", text);
    }
}

#[test]
fn definition_is_replayed_into_later_units() {
    let mut session = Session::new();
    assert_eq!(submit(&mut session, "(define (square x) (* x x))"), None);
    assert_eq!(submit(&mut session, "(square 5)"), Some(25.0));
    assert_eq!(submit(&mut session, "(define (cube y) (* y y y))"), None);
    assert_eq!(submit(&mut session, "(define z 3)"), None);
    assert_eq!(submit(&mut session, "(square 5)"), Some(25.0));
    assert_eq!(submit(&mut session, "(+ (square 2) (cube z))"), Some(31.0));
    assert_eq!(session.records().len(), 3);
}

#[test]
fn redefinition_overwrites() {
    let mut session = Session::new();
    assert_eq!(submit(&mut session, "(define x 1)"), None);
    assert_eq!(submit(&mut session, "x"), Some(1.0));
    assert_eq!(submit(&mut session, "(define x 2.5)"), None);
    assert_eq!(submit(&mut session, "x"), Some(2.5));
    assert_eq!(submit(&mut session, "(* x x)"), Some(6.25));
    assert_eq!(
        session.records(),
        &vec![read("(define x 1)").unwrap(), read("(define x 2.5)").unwrap()]
    );
}

#[test]
fn later_definition_of_a_function_wins() {
    let mut session = Session::new();
    assert_eq!(submit(&mut session, "(define (f x) (+ x 1))"), None);
    assert_eq!(submit(&mut session, "(define (f x) (* x 10))"), None);
    assert_eq!(submit(&mut session, "(f 4)"), Some(40.0));
}

#[test]
fn define_inside_an_expression_gives_the_value_defined() {
    let mut session = Session::new();
    assert_eq!(submit(&mut session, "(+ (define y 4) y)"), Some(8.0));
    assert_eq!(session.records().len(), 0);
}

#[test]
fn intrinsic_is_called() {
    let mut session = Session::new();
    assert_eq!(submit(&mut session, "(llvm.fabs -2.5)"), Some(2.5));
    assert_eq!(submit(&mut session, "(llvm.sqrt (+ 8 8))"), Some(4.0));
}

#[test]
fn unit_that_is_not_well_formed_is_refused() {
    let mut unit = Unit::new();
    unit.routines[0].ops.push(Op::Load(lisp_repl::Location { routine: 0, index: 3 }));
    unit.routines[0].result = Some(0);
    assert_eq!(run(&unit), Err(BackendError::Malformed));
    assert_eq!(run(&Unit::new()), Err(BackendError::Malformed));
    assert_eq!(run(&Unit { routines: vec![] }), Err(BackendError::Malformed));
}

#[test]
fn intrinsic_that_gives_no_double_is_refused() {
    let call = |name: &str, args: Vec<usize>| Unit {
        routines: vec![Routine {
            name: "anon".to_string(),
            params: vec![],
            ops: vec![
                Op::Integer(1),
                Op::Call(Callee::Intrinsic(name.to_string()), args),
            ],
            result: Some(1),
        }],
    };
    assert_eq!(
        run(&call("no.such.intrinsic", vec![0])),
        Err(BackendError::NoIntrinsic("no.such.intrinsic".to_string()))
    );
    assert_eq!(
        run(&call("llvm.trap", vec![])),
        Err(BackendError::NoIntrinsic("llvm.trap".to_string()))
    );
    assert_eq!(
        run(&call("llvm.fabs", vec![0, 0])),
        Err(BackendError::NoIntrinsic("llvm.fabs".to_string()))
    );
}

#[test]
fn routine_that_llvm_finds_wrong_is_rejected() {
    let mut session = Session::new();
    assert_eq!(submit(&mut session, "(define (llvm.fabs x) x)"), None);
    match session.submit(read("(llvm.fabs 1)").unwrap()).unwrap() {
        Outcome::Expression(unit) => assert_eq!(run(&unit), Err(BackendError::Rejected(0))),
        Outcome::Defined => panic!("an expression was taken for a definition"),
    }
}

#[test]
fn verdict_follows_llvm() {
    assert_eq!(verdict(3, true), Ok(()));
    assert_eq!(verdict(3, false), Err(BackendError::Rejected(3)));
}
