use risp::expr::BuiltinOp;
use risp::{default_env, eval, Expr, Parser, RispError};

fn run(text: &str) -> Result<Expr, RispError> {
    let tokens = Parser::tokenize(text.to_string());
    let (parsed, _) = Parser::parse(&tokens, 0)?;
    let mut env = default_env();
    eval(&parsed, &mut env)
}

#[test]
fn test_eval_arithmetic_tree() {
    assert_eq!(run("(+ 1 (* 2 3))").unwrap(), Expr::Number(7));
}

#[test]
fn test_eval_unbound_symbol() {
    let mut env = default_env();
    let err = eval(&Expr::Symbol("zzz".to_string()), &mut env).unwrap_err();
    assert_eq!(err, RispError::Reason("unexpected symbol: zzz".to_string()));
}

#[test]
fn test_division_chain() {
    assert_eq!(run("(/ 10 2 5)").unwrap(), Expr::Number(1));
}

#[test]
fn test_identity_arities() {
    assert_eq!(run("(- 5)").unwrap(), Expr::Number(5));
    assert_eq!(run("(+)").unwrap(), Expr::Number(0));
    assert_eq!(run("(*)").unwrap(), Expr::Number(1));
    assert_eq!(run("(/ 7)").unwrap(), Expr::Number(7));
}

#[test]
fn test_self_evaluating_atoms() {
    assert_eq!(run("42").unwrap(), Expr::Number(42));
    assert_eq!(run("true").unwrap(), Expr::Boolean(true));
    assert_eq!(run("false").unwrap(), Expr::Boolean(false));
}

#[test]
fn test_empty_list_fails() {
    let err = run("()").unwrap_err();
    assert_eq!(err, RispError::Reason("expected a non-empty list".to_string()));
}

#[test]
fn test_head_must_be_function() {
    let err = run("(1 2)").unwrap_err();
    assert_eq!(err, RispError::Reason("first form must be a function".to_string()));
}

#[test]
fn test_argument_must_be_number() {
    let err = run("(+ 1 true)").unwrap_err();
    assert_eq!(err, RispError::Reason("expected a number".to_string()));
}

#[test]
fn test_subtraction_needs_argument() {
    let err = run("(-)").unwrap_err();
    assert_eq!(err, RispError::Reason("expected at least one number".to_string()));
    let err = run("(/)").unwrap_err();
    assert_eq!(err, RispError::Reason("expected at least one number".to_string()));
}

#[test]
fn test_division_by_zero_fails() {
    let err = run("(/ 1 0)").unwrap_err();
    assert_eq!(err, RispError::Reason("division by zero".to_string()));
}

#[test]
fn test_argument_error_propagates() {
    let err = run("(+ 1 zzz)").unwrap_err();
    assert_eq!(err, RispError::Reason("unexpected symbol: zzz".to_string()));
}

#[test]
fn test_bare_callable_rejected() {
    let mut env = default_env();
    let err = eval(&Expr::Func(BuiltinOp::Add), &mut env).unwrap_err();
    assert_eq!(err, RispError::Reason("unexpected expression".to_string()));
}

#[test]
fn test_nested_application() {
    assert_eq!(run("(- (* 3 4) (+ 2 2) 1)").unwrap(), Expr::Number(7));
}

#[test]
fn test_saturating_overflow() {
    assert_eq!(
        run("(+ 9223372036854775807 1)").unwrap(),
        Expr::Number(i64::MAX)
    );
    assert_eq!(
        run("(- 0 9223372036854775807)").unwrap(),
        Expr::Number(-i64::MAX)
    );
    assert_eq!(
        run("(- (- 0 9223372036854775807) 9223372036854775807)").unwrap(),
        Expr::Number(i64::MIN)
    );
}

#[test]
fn test_default_env_bindings() {
    let env = default_env();
    assert!(matches!(
        env.get(&"+".to_string()),
        Some(Expr::Func(BuiltinOp::Add))
    ));
    assert!(matches!(
        env.get(&"-".to_string()),
        Some(Expr::Func(BuiltinOp::Sub))
    ));
    assert!(matches!(
        env.get(&"*".to_string()),
        Some(Expr::Func(BuiltinOp::Mul))
    ));
    assert!(matches!(
        env.get(&"/".to_string()),
        Some(Expr::Func(BuiltinOp::Div))
    ));
    assert!(env.get(&"define".to_string()).is_none());
}
