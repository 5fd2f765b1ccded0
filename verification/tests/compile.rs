use lisp_repl::compiler::host_callee;
use lisp_repl::{
    read, Callee, CompileError, Compiler, Expr, Location, Op, Operator, SymbolTable, Unit,
};

fn compile_one(text: &str) -> Result<Compiler, CompileError> {
    Compiler::compile(Unit::new(), &read(text).unwrap(), SymbolTable::new())
}

fn compile_all(texts: &[&str]) -> Result<Compiler, CompileError> {
    let mut compiler = Compiler::new();
    for text in texts {
        compiler = Compiler::compile(compiler.unit, &read(text).unwrap(), compiler.global_scope)?;
    }
    Ok(compiler)
}

#[test]
fn sum_of_three_folds_from_the_left() {
    let compiler = compile_one("(+ 1 2 3)").unwrap();
    assert_eq!(compiler.routine, 0);
    let entry = &compiler.unit.routines[0];
    assert_eq!(entry.name, "anon");
    assert_eq!(
        entry.ops,
        vec![
            Op::Integer(1),
            Op::Integer(2),
            Op::Integer(3),
            Op::Arith(Operator::Add, 0, 1),
            Op::Arith(Operator::Add, 3, 2),
        ]
    );
    assert_eq!(entry.result, Some(4));
}

#[test]
fn single_argument_emits_no_arithmetic() {
    let compiler = compile_one("(- 5)").unwrap();
    let entry = &compiler.unit.routines[0];
    assert_eq!(entry.ops, vec![Op::Integer(5)]);
    assert_eq!(entry.result, Some(0));
}

#[test]
fn compile_expr_gives_the_value_of_the_node() {
    let compiler = Compiler::new();
    let (compiler, value) = compiler.compile_expr(&read("(* 2 (+ 3 4.5))").unwrap()).unwrap();
    assert_eq!(value, 4);
    assert_eq!(
        compiler.unit.routines[0].ops,
        vec![
            Op::Integer(2),
            Op::Integer(3),
            Op::Decimal("4.5".to_string()),
            Op::Arith(Operator::Add, 1, 2),
            Op::Arith(Operator::Mul, 0, 3),
        ]
    );
    assert_eq!(compiler.unit.routines[0].result, None);
}

#[test]
fn variable_definition_stores_and_binds() {
    let compiler = compile_all(&["(define x 7)", "(+ x 1)"]).unwrap();
    let slot = Location { routine: 0, index: 1 };
    assert_eq!(
        compiler.unit.routines[0].ops,
        vec![
            Op::Integer(7),
            Op::Alloc,
            Op::Store(slot, 0),
            Op::Load(slot),
            Op::Integer(1),
            Op::Arith(Operator::Add, 3, 4),
        ]
    );
    assert_eq!(compiler.unit.routines[0].result, Some(5));
    assert_eq!(compiler.global_scope.get(&"x".to_string()), Some(slot));
    assert_eq!(compiler.global_scope.len(), 1);
}

#[test]
fn redefinition_replaces_the_binding() {
    let compiler = compile_all(&["(define x 1)", "(define x 2)", "x"]).unwrap();
    let latest = Location { routine: 0, index: 4 };
    assert_eq!(compiler.global_scope.get(&"x".to_string()), Some(latest));
    assert_eq!(compiler.global_scope.len(), 1);
    assert_eq!(compiler.unit.routines[0].ops[6], Op::Load(latest));
}

#[test]
fn function_definition_becomes_a_routine() {
    let compiler = compile_one("(define (square x) (* x x))").unwrap();
    assert_eq!(compiler.routine, 1);
    assert_eq!(compiler.unit.routines.len(), 2);
    assert_eq!(compiler.unit.routines[0].ops, vec![]);
    let square = &compiler.unit.routines[1];
    let slot = Location { routine: 1, index: 1 };
    assert_eq!(square.name, "square");
    assert_eq!(square.params, vec!["x".to_string()]);
    assert_eq!(
        square.ops,
        vec![
            Op::Param(0),
            Op::Alloc,
            Op::Store(slot, 0),
            Op::Load(slot),
            Op::Load(slot),
            Op::Arith(Operator::Mul, 3, 4),
        ]
    );
    assert_eq!(square.result, Some(5));
    assert_eq!(compiler.global_scope.len(), 0);
}

#[test]
fn parameters_are_not_visible_outside_the_function() {
    assert_eq!(
        compile_all(&["(define (square x) (* x x))", "x"]).err(),
        Some(CompileError::UndefinedVariable("x".to_string()))
    );
}

#[test]
fn routine_is_called_by_its_index() {
    let compiler = compile_all(&["(define (square x) (* x x))", "(square 5)"]).unwrap();
    assert_eq!(
        compiler.unit.routines[0].ops,
        vec![Op::Integer(5), Op::Call(Callee::Routine(1), vec![0])]
    );
}

#[test]
fn function_may_call_itself() {
    let compiler = compile_one("(define (loop n) (loop (- n 1)))").unwrap();
    assert_eq!(
        compiler.unit.routines[1].ops[6],
        Op::Call(Callee::Routine(1), vec![5])
    );
}

#[test]
fn intrinsic_is_called_by_name() {
    let compiler = compile_one("(llvm.fabs -2.5)").unwrap();
    assert_eq!(
        compiler.unit.routines[0].ops,
        vec![
            Op::Decimal("-2.5".to_string()),
            Op::Call(Callee::Intrinsic("llvm.fabs".to_string()), vec![0]),
        ]
    );
}

#[test]
fn routine_comes_before_intrinsic() {
    let compiler = compile_all(&["(define (llvm.fabs x) x)", "(llvm.fabs 1)"]).unwrap();
    assert_eq!(
        compiler.unit.routines[0].ops[1],
        Op::Call(Callee::Routine(1), vec![0])
    );
}

#[test]
fn anonymous_routine_cannot_be_called() {
    assert_eq!(
        compile_one("(anon)").err(),
        Some(CompileError::UnknownOperator("anon".to_string()))
    );
    let compiler = compile_all(&["(define (anon) 7)", "(anon)"]).unwrap();
    assert_eq!(compiler.unit.routines[0].ops, vec![Op::Call(Callee::Routine(1), vec![])]);
}

#[test]
fn arithmetic_comes_before_routine() {
    let compiler = compile_all(&["(define (+ x) x)", "(+ 1 2)"]).unwrap();
    assert_eq!(compiler.unit.routines[0].ops[2], Op::Arith(Operator::Add, 0, 1));
}

#[test]
fn host_callee_follows_the_lookup() {
    let name = "llvm.floor".to_string();
    assert_eq!(host_callee(&name, true), Ok(Callee::Intrinsic(name.clone())));
    assert_eq!(host_callee(&name, false), Err(CompileError::UnknownOperator(name.clone())));
}

#[test]
fn each_compile_error_has_an_input() {
    let error = |text: &str| compile_one(text).err();
    assert_eq!(error("()"), Some(CompileError::ExpectedOperator));
    assert_eq!(error("(1 2)"), Some(CompileError::ExpectedOperator));
    assert_eq!(error("((f) 2)"), Some(CompileError::ExpectedOperator));
    assert_eq!(error("(define x)"), Some(CompileError::ArityError));
    assert_eq!(error("(define)"), Some(CompileError::ArityError));
    assert_eq!(error("(define x 1 2)"), Some(CompileError::ArityError));
    assert_eq!(error("(+)"), Some(CompileError::ArityError));
    assert_eq!(error("(define 5 1)"), Some(CompileError::InvalidDefineTarget));
    assert_eq!(error("(define () 1)"), Some(CompileError::InvalidDefineTarget));
    assert_eq!(error("(define (1 x) x)"), Some(CompileError::InvalidDefineTarget));
    assert_eq!(error("(define (f 1) 2)"), Some(CompileError::InvalidParameterList));
    assert_eq!(error("(define (f x (y)) x)"), Some(CompileError::InvalidParameterList));
    assert_eq!(error("(define (f x y x) x)"), Some(CompileError::InvalidParameterList));
    assert_eq!(error("y"), Some(CompileError::UndefinedVariable("y".to_string())));
    assert_eq!(error("(+ 1 y)"), Some(CompileError::UndefinedVariable("y".to_string())));
    assert_eq!(error("(foo 1)"), Some(CompileError::UnknownOperator("foo".to_string())));
    assert_eq!(error("(define (f x) (f))"), Some(CompileError::InvalidFunction));
    assert_eq!(error("(define (f x) (f x x))"), Some(CompileError::InvalidFunction));
}

#[test]
fn names_that_llvm_does_not_know_are_unknown_operators() {
    for name in ["q", "llvm", "llvm.", "llvm.no-such-thing", "xxxx.sqrt.f64", "a.b.c", "?"] {
        assert_eq!(
            compile_one(&format!("({} 1)", name)).err(),
            Some(CompileError::UnknownOperator(name.to_string())),
            "{}",
            name
        );
    }
}

#[test]
fn first_error_wins() {
    assert_eq!(
        compile_one("(foo a (bar))").err(),
        Some(CompileError::UndefinedVariable("a".to_string()))
    );
    assert_eq!(
        compile_one("(foo (bar) a)").err(),
        Some(CompileError::UnknownOperator("bar".to_string()))
    );
    assert_eq!(compile_one("(+ (define x) y)").err(), Some(CompileError::ArityError));
}

#[test]
fn function_cannot_reach_a_variable_of_the_top_level() {
    assert_eq!(
        compile_all(&["(define x 1)", "(define (f y) (+ x y))"]).err(),
        Some(CompileError::InvalidFunction)
    );
}

#[test]
fn call_with_the_wrong_number_of_arguments_is_invalid() {
    assert_eq!(
        compile_all(&["(define (square x) (* x x))", "(square 1 2)"]).err(),
        Some(CompileError::InvalidFunction)
    );
}

#[test]
fn routine_verifies_after_compilation() {
    let compiler = compile_all(&["(define (square x) (* x x))", "(square 5)"]).unwrap();
    assert!(compiler.unit.verify(0));
    assert!(compiler.unit.verify(1));
    assert!(!compiler.unit.verify(2));
    assert!(compiler.unit.verify_all());
    let _ = Expr::Integer(0);
}
