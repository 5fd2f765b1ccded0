use lisp_repl::{Callee, Location, Op, Operator, Routine, Unit};

fn routine(name: &str, params: &[&str], ops: Vec<Op>, result: Option<usize>) -> Routine {
    Routine {
        name: name.to_string(),
        params: params.iter().map(|param| param.to_string()).collect(),
        ops,
        result,
    }
}

fn unit_of(entry: Vec<Op>, result: Option<usize>) -> Unit {
    Unit {
        routines: vec![
            routine("anon", &[], entry, result),
            routine("inc", &["n"], vec![Op::Param(0)], Some(0)),
        ],
    }
}

#[test]
fn fresh_unit_holds_the_anonymous_routine() {
    let unit = Unit::new();
    assert_eq!(unit.len(), 1);
    assert_eq!(unit.routines[0], routine("anon", &[], vec![], None));
    assert_eq!(unit.lookup(&"anon".to_string()), None);
    assert_eq!(unit.lookup(&"f".to_string()), None);
}

#[test]
fn latest_routine_of_a_name_is_found() {
    let mut unit = Unit::new();
    assert_eq!(unit.declare("f".to_string(), vec!["x".to_string()]), 1);
    assert_eq!(unit.declare("g".to_string(), vec![]), 2);
    assert_eq!(unit.declare("f".to_string(), vec![]), 3);
    assert_eq!(unit.lookup(&"f".to_string()), Some(3));
    assert_eq!(unit.lookup(&"g".to_string()), Some(2));
    assert_eq!(unit.len(), 4);
}

#[test]
fn operation_defines_the_next_value() {
    let mut unit = Unit::new();
    assert_eq!(unit.push_op(0, Op::Integer(4)), 0);
    assert_eq!(unit.push_op(0, Op::Alloc), 1);
    assert_eq!(unit.push_op(0, Op::Store(Location { routine: 0, index: 1 }, 0)), 2);
    unit.set_result(0, 0);
    assert_eq!(unit.routines[0].result, Some(0));
    assert!(unit.verify(0));
    assert!(unit.verify_all());
}

#[test]
fn sound_routine_verifies() {
    let slot = Location { routine: 0, index: 1 };
    let unit = unit_of(
        vec![
            Op::Decimal("1.5".to_string()),
            Op::Alloc,
            Op::Store(slot, 0),
            Op::Load(slot),
            Op::Arith(Operator::Rem, 3, 0),
            Op::Call(Callee::Routine(1), vec![4]),
            Op::Call(Callee::Intrinsic("llvm.sin".to_string()), vec![5]),
        ],
        Some(6),
    );
    assert!(unit.verify(0));
    assert!(unit.verify(1));
    assert!(unit.verify_all());
}

#[test]
fn unsound_routine_does_not_verify() {
    let slot = Location { routine: 0, index: 1 };
    let number = || Op::Integer(1);
    let cases: Vec<(Vec<Op>, Option<usize>)> = vec![
        (vec![number()], None),
        (vec![number()], Some(1)),
        (vec![Op::Alloc], Some(0)),
        (vec![Op::Param(0)], Some(0)),
        (vec![number(), Op::Load(slot)], Some(0)),
        (vec![number(), Op::Load(Location { routine: 0, index: 0 })], Some(0)),
        (vec![number(), Op::Alloc, Op::Load(Location { routine: 1, index: 1 })], Some(0)),
        (vec![number(), Op::Alloc, Op::Store(slot, 2)], Some(0)),
        (vec![number(), Op::Alloc, Op::Store(slot, 1)], Some(0)),
        (vec![number(), Op::Alloc, Op::Store(slot, 0)], Some(2)),
        (vec![number(), Op::Arith(Operator::Add, 0, 1)], Some(0)),
        (vec![number(), Op::Arith(Operator::Add, 2, 0)], Some(0)),
        (vec![number(), Op::Call(Callee::Routine(1), vec![])], Some(0)),
        (vec![number(), Op::Call(Callee::Routine(1), vec![0, 0])], Some(0)),
        (vec![number(), Op::Call(Callee::Routine(2), vec![0])], Some(0)),
        (vec![number(), Op::Call(Callee::Routine(1), vec![1])], Some(0)),
        (vec![number(), Op::Call(Callee::Intrinsic("llvm.sin".to_string()), vec![3])], Some(0)),
    ];
    for (i, (ops, result)) in cases.into_iter().enumerate() {
        let unit = unit_of(ops, result);
        assert!(!unit.verify(0), "case {}", i);
        assert!(unit.verify(1), "case {}", i);
        assert!(!unit.verify_all(), "case {}", i);
    }
    assert!(!Unit { routines: vec![] }.verify_all());
}
