use calculator::builder::{Expression, ExpressionBuilder};
use calculator::token::{Function, Number, NumberType, Operator, Token};

#[test]
fn test_build_simple_expression() {
    let expr = ExpressionBuilder::new()
        .number("2.0")
        .operator(Operator::Add)
        .number("3.0")
        .build()
        .unwrap();
    assert_eq!(expr.tokens().len(), 3);
}

#[test]
fn test_build_with_paren() {
    let expr = ExpressionBuilder::new()
        .number("2.0")
        .operator(Operator::Add)
        .open_paren()
        .number("3.0")
        .operator(Operator::Multiply)
        .number("4.0")
        .close_paren()
        .unwrap()
        .build()
        .unwrap();
    assert_eq!(expr.tokens().len(), 7);
}

#[test]
fn test_unmatched_close_paren() {
    let res = ExpressionBuilder::new().number("1.0").close_paren();
    assert!(res.is_err());
}

#[test]
fn test_unmatched_open_paren() {
    let res = ExpressionBuilder::new().number("1.0").open_paren().build();
    assert!(res.is_err());
}

#[test]
fn test_empty_expression() {
    let res = ExpressionBuilder::new().build();
    assert!(res.is_err());
}

#[test]
fn test_consecutive_operators() {
    let res = ExpressionBuilder::new()
        .number("1.0")
        .operator(Operator::Add)
        .operator(Operator::Multiply)
        .number("2.0")
        .build();
    assert!(res.is_err());
}

#[test]
fn error_messages() {
    assert_eq!(
        ExpressionBuilder::new().close_paren().err(),
        Some("Unmatched closing parenthesis".to_string())
    );
    assert_eq!(
        ExpressionBuilder::new().open_paren().build().err(),
        Some("Unmatched parentheses".to_string())
    );
    assert_eq!(ExpressionBuilder::new().build().err(), Some("Empty expression".to_string()));
    assert_eq!(
        ExpressionBuilder::new().operator(Operator::Add).operator(Operator::Add).build().err(),
        Some("Consecutive operators not allowed".to_string())
    );
}

#[test]
fn open_groups_follow_the_parentheses() {
    let b = ExpressionBuilder::new().open_paren().open_paren();
    assert_eq!(b.open_groups(), 2);
    let b = b.close_paren().unwrap();
    assert_eq!(b.open_groups(), 1);
    let b = b.variable("x").close_paren().unwrap();
    assert_eq!(b.open_groups(), 0);
    assert!(b.close_paren().is_err());
    // a function between operators is not an operator
    let e = ExpressionBuilder::default()
        .number("1")
        .operator(Operator::Add)
        .function_call(Function::Sqrt, "y")
        .build()
        .unwrap();
    assert_eq!(e.len(), 6);
    assert_eq!(e.tokens()[2], Token::Function(Function::Sqrt));
    assert_eq!(e.tokens()[3], Token::OpenParen);
    assert_eq!(e.tokens()[4], Token::Variable("y".to_string()));
    assert_eq!(e.tokens()[5], Token::CloseParen);
}

#[test]
fn binary_op_and_quadratic_templates() {
    let e = ExpressionBuilder::new().binary_op("2", Operator::Subtract, "5").build().unwrap();
    assert_eq!(
        e.tokens(),
        &vec![
            Token::Number(Number::new("2")),
            Token::Operator(Operator::Subtract),
            Token::Number(Number::new("5")),
        ]
    );
    let q = Expression::quadratic().build().unwrap();
    assert_eq!(q.len(), 11);
    assert_eq!(q.tokens()[0], Token::Number(Number { literal: "1.0".to_string(), kind: NumberType::Decimal }));
    assert_eq!(q.tokens()[4].clone(), Token::number("2.0"));
    assert_eq!(q.tokens()[8], Token::variable("x"));
    assert_eq!(q.tokens()[10], Token::number("0.0"));
}
