use lisp_repl::is_complete_expression;

#[test]
fn balanced_text_is_complete() {
    assert!(is_complete_expression(""));
    assert!(is_complete_expression("42"));
    assert!(is_complete_expression("(+ 1 (* 2 3))"));
    assert!(is_complete_expression("()()"));
}

#[test]
fn open_parenthesis_is_incomplete() {
    assert!(!is_complete_expression("("));
    assert!(!is_complete_expression("(define (square x)\n  (* x x)"));
}

#[test]
fn early_close_is_incomplete() {
    assert!(!is_complete_expression(")"));
    assert!(!is_complete_expression(")("));
    assert!(!is_complete_expression("(a))("));
}
