use risp::{Expr, Parser, RispError};

#[test]
fn test_tokenize() {
    let input = String::from("(+ 1 (* 2 3))");
    let expected = vec!["(", "+", "1", "(", "*", "2", "3", ")", ")"];
    let result = Parser::tokenize(input);
    assert_eq!(result, expected);

    // Test with more complex input
    let input2 = String::from("(define x (lambda (y) (* y 2)))");
    let expected2 = vec![
        "(", "define", "x", "(", "lambda", "(", "y", ")", "(", "*", "y", "2", ")", ")", ")",
    ];
    let result2 = Parser::tokenize(input2);
    assert_eq!(result2, expected2);
}

#[test]
fn test_parse() {
    let input = Parser::tokenize("(+ 1 (* 2 3))".to_string());
    let expected = Expr::List(vec![
        Expr::Symbol("+".to_string()),
        Expr::Number(1),
        Expr::List(vec![
            Expr::Symbol("*".to_string()),
            Expr::Number(2),
            Expr::Number(3),
        ]),
    ]);
    let (result, _) = Parser::parse(&input, 0).unwrap();
    assert_eq!(result, expected);
}

#[test]
fn test_parse_leaves_cursor_after_form() {
    let input = Parser::tokenize("(+ 1 2) trailing".to_string());
    let (result, next) = Parser::parse(&input, 0).unwrap();
    assert_eq!(
        result,
        Expr::List(vec![
            Expr::Symbol("+".to_string()),
            Expr::Number(1),
            Expr::Number(2),
        ])
    );
    assert_eq!(next, 5);
    let (rest, end) = Parser::parse(&input, next).unwrap();
    assert_eq!(rest, Expr::Symbol("trailing".to_string()));
    assert_eq!(end, 6);
}

#[test]
fn test_tokenize_empty_input() {
    assert_eq!(Parser::tokenize(String::new()), Vec::<String>::new());
    assert_eq!(Parser::tokenize("   \t\n".to_string()), Vec::<String>::new());
}

#[test]
fn test_unmatched_open_parenthesis() {
    let input = Parser::tokenize("(+ 1 2".to_string());
    let err = Parser::parse(&input, 0).unwrap_err();
    assert!(matches!(err, RispError::UnmatchedParenthesis));
}

#[test]
fn test_unexpected_closing_parenthesis() {
    let input = Parser::tokenize(")".to_string());
    let err = Parser::parse(&input, 0).unwrap_err();
    assert_eq!(err, RispError::Reason("unexpected `)`".to_string()));
}

#[test]
fn test_parse_no_tokens() {
    let input: Vec<String> = Vec::new();
    let err = Parser::parse(&input, 0).unwrap_err();
    assert_eq!(err, RispError::Reason("could not get token".to_string()));
}

#[test]
fn test_boolean_atoms() {
    let input = Parser::tokenize("true".to_string());
    let (result, _) = Parser::parse(&input, 0).unwrap();
    assert_eq!(result, Expr::Boolean(true));
    let input = Parser::tokenize("false".to_string());
    let (result, _) = Parser::parse(&input, 0).unwrap();
    assert_eq!(result, Expr::Boolean(false));
}

#[test]
fn test_minus_and_decimal_atoms_are_symbols() {
    let input = Parser::tokenize("-1".to_string());
    let (result, _) = Parser::parse(&input, 0).unwrap();
    assert_eq!(result, Expr::Symbol("-1".to_string()));

    let input = Parser::tokenize("1.5".to_string());
    let (result, _) = Parser::parse(&input, 0).unwrap();
    assert_eq!(result, Expr::Symbol("1.5".to_string()));
}

#[test]
fn test_oversized_numeric_literal_saturates() {
    let input = Parser::tokenize("99999999999999999999".to_string());
    let (result, _) = Parser::parse(&input, 0).unwrap();
    assert_eq!(result, Expr::Number(i64::MAX));
}

#[test]
fn test_empty_list_parses() {
    let input = Parser::tokenize("()".to_string());
    let (result, _) = Parser::parse(&input, 0).unwrap();
    assert_eq!(result, Expr::List(vec![]));
}
