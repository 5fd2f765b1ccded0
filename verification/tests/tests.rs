use lisp_repl::{read, Expr, ParseError};

fn float(text: &str) -> Expr {
    Expr::Float(text.to_string())
}

fn number_of(expr: &Expr) -> f64 {
    match expr {
        Expr::Integer(n) => *n as f64,
        Expr::Float(text) => text.parse::<f64>().unwrap(),
        _ => panic!("not a number: {:?}", expr),
    }
}

#[test]
fn test_parse_number() {
    assert_eq!(read("42"), Ok(Expr::Integer(42)));
    assert_eq!(read("-42"), Ok(Expr::Integer(-42)));
    assert_eq!(read("3.14"), Ok(float("3.14")));
    assert_eq!(read("-3.14"), Ok(float("-3.14")));
    assert_eq!(number_of(&read("3.14").unwrap()), 3.14);
    assert_eq!(number_of(&read("-3.14").unwrap()), -3.14);
}

#[test]
fn test_parse_symbol() {
    assert_eq!(read("foo"), Ok(Expr::Symbol("foo".to_string())));
    assert_eq!(read("+ "), Ok(Expr::Symbol("+".to_string())));
    assert_eq!(read(" bar-42"), Ok(Expr::Symbol("bar-42".to_string())));
}

#[test]
fn test_parse_list() {
    assert_eq!(
        read(" (+ 1 2)"),
        Ok(Expr::List(vec![
            Expr::Symbol("+".to_string()),
            Expr::Integer(1),
            Expr::Integer(2)
        ]))
    );
    assert_eq!(
        read("(+ (* 2 3) (/ 4 2)) "),
        Ok(Expr::List(vec![
            Expr::Symbol("+".to_string()),
            Expr::List(vec![
                Expr::Symbol("*".to_string()),
                Expr::Integer(2),
                Expr::Integer(3)
            ]),
            Expr::List(vec![
                Expr::Symbol("/".to_string()),
                Expr::Integer(4),
                Expr::Integer(2)
            ])
        ]))
    );
}

#[test]
fn integer_limits_are_read_exactly() {
    assert_eq!(read("9223372036854775807"), Ok(Expr::Integer(i64::MAX)));
    assert_eq!(read("-9223372036854775808"), Ok(Expr::Integer(i64::MIN)));
    assert_eq!(read("0000000000000000000000000007"), Ok(Expr::Integer(7)));
    assert_eq!(read("-0"), Ok(Expr::Integer(0)));
}

#[test]
fn integer_out_of_range_falls_back_to_decimal() {
    assert_eq!(read("9223372036854775808"), Ok(float("9223372036854775808")));
    assert_eq!(read("-9223372036854775809"), Ok(float("-9223372036854775809")));
    assert_eq!(number_of(&read("9223372036854775808").unwrap()), 9223372036854775808.0);
}

#[test]
fn token_with_a_point_is_a_decimal() {
    assert_eq!(read("5."), Ok(float("5.")));
    assert_eq!(read("5.0"), Ok(float("5.0")));
    assert_eq!(read("-12.50"), Ok(float("-12.50")));
    assert_eq!(number_of(&read("5.").unwrap()), 5.0);
}

#[test]
fn minus_alone_is_a_symbol() {
    assert_eq!(read("-"), Ok(Expr::Symbol("-".to_string())));
    assert_eq!(read("--5"), Ok(Expr::Symbol("--5".to_string())));
    assert_eq!(read("a.b\"c1"), Ok(Expr::Symbol("a.b\"c1".to_string())));
}

#[test]
fn symbol_may_hold_a_double_quote() {
    assert_eq!(read("\"abc"), Ok(Expr::Symbol("\"abc".to_string())));
    assert_eq!(read("a\"b\""), Ok(Expr::Symbol("a\"b\"".to_string())));
    assert_eq!(read("<=?!@#$%&|:_*/+"), Ok(Expr::Symbol("<=?!@#$%&|:_*/+".to_string())));
}

#[test]
fn tokens_need_no_whitespace_between_them() {
    assert_eq!(
        read("(1-2 a(b))"),
        Ok(Expr::List(vec![
            Expr::Integer(1),
            Expr::Integer(-2),
            Expr::Symbol("a".to_string()),
            Expr::List(vec![Expr::Symbol("b".to_string())]),
        ]))
    );
}

#[test]
fn empty_list_is_read() {
    assert_eq!(read("()"), Ok(Expr::List(vec![])));
    assert_eq!(read("\t( \r\n )\n"), Ok(Expr::List(vec![])));
}

#[test]
fn each_parse_error_has_an_input() {
    assert_eq!(read(""), Err(ParseError::Empty));
    assert_eq!(read(" \t\r\n"), Err(ParseError::Empty));
    assert_eq!(read("(+ 1 2"), Err(ParseError::Unbalanced));
    assert_eq!(read(")"), Err(ParseError::Unbalanced));
    assert_eq!(read("(1.5.5)"), Err(ParseError::Malformed));
    assert_eq!(read(".5"), Err(ParseError::Malformed));
    assert_eq!(read("(a [b])"), Err(ParseError::Malformed));
    assert_eq!(read("1 2"), Err(ParseError::Trailing));
    assert_eq!(read("(a))"), Err(ParseError::Trailing));
    assert_eq!(read("5abc"), Err(ParseError::Trailing));
    assert_eq!(read("(caf\u{e9})"), Err(ParseError::Malformed));
}

#[test]
fn copy_of_a_node_is_equal_to_it() {
    let expr = read("(define (f x) (* x -2.5 (g 1 ())))").unwrap();
    assert_eq!(expr.clone(), expr);
}

#[test]
fn define_form_is_a_definition() {
    assert!(read("(define x 1)").unwrap().is_definition());
    assert!(read("(define (f x) x)").unwrap().is_definition());
    assert!(read("(define)").unwrap().is_definition());
    assert!(!read("(+ 1 (define x 1))").unwrap().is_definition());
    assert!(!read("define").unwrap().is_definition());
    assert!(!read("()").unwrap().is_definition());
    assert!(!read("((define) 1)").unwrap().is_definition());
    assert!(!read("(defined x 1)").unwrap().is_definition());
}

#[test]
fn characters_of_a_text() {
    assert_eq!(lisp_repl::reader::chars_of("a(\u{e9}) "), vec!['a', '(', '\u{e9}', ')', ' ']);
    assert_eq!(lisp_repl::reader::chars_of(""), Vec::<char>::new());
}
