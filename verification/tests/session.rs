use lisp_repl::{read, CompileError, Outcome, Session};

#[test]
fn definition_is_recorded_and_not_executed() {
    let mut session = Session::new();
    let define = read("(define (square x) (* x x))").unwrap();
    assert_eq!(session.submit(define.clone()), Ok(Outcome::Defined));
    assert_eq!(session.records(), &vec![define]);
}

#[test]
fn expression_is_not_recorded() {
    let mut session = Session::new();
    match session.submit(read("(+ 1 2)").unwrap()) {
        Ok(Outcome::Expression(unit)) => {
            assert_eq!(unit.routines.len(), 1);
            assert_eq!(unit.routines[0].result, Some(2));
        }
        other => panic!("{:?}", other),
    }
    assert!(session.records().is_empty());
}

#[test]
fn failing_input_is_not_recorded() {
    let mut session = Session::new();
    session.submit(read("(define x 1)").unwrap()).unwrap();
    assert_eq!(
        session.submit(read("(define y z)").unwrap()),
        Err(CompileError::UndefinedVariable("z".to_string()))
    );
    assert_eq!(
        session.submit(read("(nope x)").unwrap()),
        Err(CompileError::UnknownOperator("nope".to_string()))
    );
    assert_eq!(session.records().len(), 1);
    assert!(matches!(session.submit(read("(+ x 1)").unwrap()), Ok(Outcome::Expression(_))));
}

#[test]
fn replay_gives_the_same_unit_each_time() {
    let mut session = Session::new();
    for text in ["(define x 1)", "(define (f a b) (+ a b))", "(define x (f x 2))"] {
        assert_eq!(session.submit(read(text).unwrap()), Ok(Outcome::Defined));
    }
    assert_eq!(session.records().len(), 3);
    let first = session.replay();
    let second = session.replay();
    assert_eq!(first.unit, second.unit);
    assert_eq!(first.global_scope, second.global_scope);
    assert_eq!(first.routine, second.routine);
}

#[test]
fn session_is_restored_from_its_records() {
    let records = vec![read("(define x 1)").unwrap(), read("(define (f a) (* a 2))").unwrap()];
    let mut session = Session::restore(records.clone()).ok().unwrap();
    assert_eq!(session.records(), &records);
    assert!(matches!(session.submit(read("(f 3)").unwrap()), Ok(Outcome::Expression(_))));
    let broken = vec![read("(define x y)").unwrap()];
    assert_eq!(
        Session::restore(broken).err(),
        Some(CompileError::UndefinedVariable("y".to_string()))
    );
}
