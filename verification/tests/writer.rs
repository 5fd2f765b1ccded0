use lisp_repl::writer::decimal_text;
use lisp_repl::{read, Expr};

#[test]
fn decimal_text_of_an_integer() {
    assert_eq!(decimal_text(0), "0");
    assert_eq!(decimal_text(7), "7");
    assert_eq!(decimal_text(-7), "-7");
    assert_eq!(decimal_text(1234567890), "1234567890");
    assert_eq!(decimal_text(i64::MAX), "9223372036854775807");
    assert_eq!(decimal_text(i64::MIN), "-9223372036854775808");
}

#[test]
fn decimal_text_reads_back() {
    for n in [0, 1, -1, 9, 10, -10, 99, 100, 4096, -4096, i64::MAX, i64::MIN, i64::MIN + 1] {
        assert_eq!(read(&decimal_text(n)), Ok(Expr::Integer(n)));
    }
}

#[test]
fn text_of_a_node() {
    let expr = Expr::List(vec![
        Expr::Symbol("define".to_string()),
        Expr::List(vec![Expr::Symbol("f".to_string()), Expr::Symbol("x".to_string())]),
        Expr::List(vec![
            Expr::Symbol("*".to_string()),
            Expr::Symbol("x".to_string()),
            Expr::Float("-2.50".to_string()),
            Expr::Integer(-3),
            Expr::List(vec![]),
        ]),
    ]);
    assert_eq!(expr.to_text(), "(define (f x) (* x -2.50 -3 ()))");
    assert_eq!(Expr::List(vec![]).to_text(), "()");
    assert_eq!(Expr::Integer(i64::MIN).to_text(), "-9223372036854775808");
}

#[test]
fn text_of_what_was_read_reads_back() {
    for text in [
        "42",
        " -3.14 ",
        "foo",
        "(+ 1 2)",
        "(define (fact n)\n  (* n (fact (- n 1))))",
        "(1-2 a(b)())",
        "99999999999999999999",
        "(a.b c\"d -)",
    ] {
        let expr = read(text).unwrap();
        assert_eq!(read(&expr.to_text()), Ok(expr.clone()), "{}", text);
    }
}

#[test]
fn node_that_cannot_be_read_does_not_read_back() {
    let strange = Expr::Symbol("-5".to_string());
    assert_eq!(read(&strange.to_text()), Ok(Expr::Integer(-5)));
}
