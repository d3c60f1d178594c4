use risp::expr::BuiltinOp;
use risp::Expr;

#[test]
fn test_display_list_comma_joined() {
    let e = Expr::List(vec![Expr::Symbol("a".to_string()), Expr::Number(1)]);
    assert_eq!(e.to_text(), "(a, 1)");
}

#[test]
fn test_display_atoms() {
    assert_eq!(Expr::Number(7).to_text(), "7");
    assert_eq!(Expr::Number(0).to_text(), "0");
    assert_eq!(Expr::Number(-42).to_text(), "-42");
    assert_eq!(Expr::Number(i64::MIN).to_text(), "-9223372036854775808");
    assert_eq!(Expr::Boolean(true).to_text(), "true");
    assert_eq!(Expr::Boolean(false).to_text(), "false");
    assert_eq!(Expr::Symbol("abc".to_string()).to_text(), "abc");
}

#[test]
fn test_display_callable_placeholder() {
    assert_eq!(Expr::Func(BuiltinOp::Mul).to_text(), "function {}");
}

#[test]
fn test_display_nested_lists() {
    let e = Expr::List(vec![
        Expr::List(vec![]),
        Expr::Number(2),
        Expr::List(vec![Expr::Boolean(false)]),
    ]);
    assert_eq!(e.to_text(), "((), 2, (false))");
}
