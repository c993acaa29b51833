use calculator::token::{Function, Number, NumberType, Operator, Token};

fn value(n: &Number) -> f64 {
    n.literal.parse::<f64>().unwrap()
}

#[test]
fn test_token_from_str_number() {
    let t = Token::from_str("42").unwrap();
    assert!(matches!(
        t,
        Token::Number(ref n) if value(n) == 42.0 && n.kind == NumberType::Decimal
    ));
}

#[test]
fn test_token_from_str_scientific() {
    let t = Token::from_str("1.23e4").unwrap();
    assert!(matches!(
        t,
        Token::Number(ref n) if value(n) == 12300.0 && n.kind == NumberType::Scientific
    ));
}

#[test]
fn test_token_from_str_operator() {
    assert!(matches!(
        Token::from_str("+").unwrap(),
        Token::Operator(Operator::Add)
    ));
}

#[test]
fn test_token_from_str_function() {
    assert!(matches!(
        Token::from_str("sin").unwrap(),
        Token::Function(Function::Sin)
    ));
}

#[test]
fn test_token_number_factory() {
    let t = Token::number("3.5");
    assert!(matches!(
        t,
        Token::Number(ref n) if value(n) == 3.5 && n.kind == NumberType::Decimal
    ));
}

#[test]
fn test_token_variable_factory() {
    let t = Token::variable("x");
    assert!(matches!(t, Token::Variable(s) if s == "x"));
}

#[test]
fn test_invalid_token() {
    let res = Token::from_str("@");
    assert!(res.is_err());
    assert!(res.unwrap_err().contains("Invalid token"));
}

#[test]
fn invalid_token_message_names_the_text() {
    assert_eq!(Token::from_str("a-b").unwrap_err(), "Invalid token: a-b");
    assert_eq!(Token::from_str(" x").unwrap_err(), "Invalid token:  x");
}

#[test]
fn every_symbol_reads_as_its_token() {
    let cases = [
        ("+", Token::Operator(Operator::Add)),
        ("-", Token::Operator(Operator::Subtract)),
        ("*", Token::Operator(Operator::Multiply)),
        ("/", Token::Operator(Operator::Divide)),
        ("^", Token::Operator(Operator::Power)),
        ("sin", Token::Function(Function::Sin)),
        ("cos", Token::Function(Function::Cos)),
        ("tan", Token::Function(Function::Tan)),
        ("sqrt", Token::Function(Function::Sqrt)),
        ("(", Token::OpenParen),
        (")", Token::CloseParen),
    ];
    for (text, token) in cases.iter() {
        assert_eq!(&Token::from_str(text).unwrap(), token);
    }
}

#[test]
fn numbers_take_precedence_over_names() {
    assert_eq!(
        Token::from_str("inf").unwrap(),
        Token::Number(Number { literal: "inf".to_string(), kind: NumberType::Decimal })
    );
    assert_eq!(
        Token::from_str("1e5").unwrap(),
        Token::Number(Number { literal: "1e5".to_string(), kind: NumberType::Scientific })
    );
    assert_eq!(
        Token::from_str("-2.5E-3").unwrap(),
        Token::Number(Number { literal: "-2.5E-3".to_string(), kind: NumberType::Scientific })
    );
    assert_eq!(Token::from_str("e5").unwrap(), Token::Variable("e5".to_string()));
    assert_eq!(Token::from_str("x_1").unwrap(), Token::Variable("x_1".to_string()));
    assert_eq!(Token::from_str("").unwrap(), Token::Variable(String::new()));
    assert_eq!(Token::from_str("été").unwrap(), Token::Variable("été".to_string()));
    assert!(Token::from_str("sin(").is_err());
    assert!(Token::from_str("1.2.3").is_err());
}

#[test]
fn number_constructors_keep_text_and_notation() {
    let s = Token::scientific_number("6.02e23");
    assert_eq!(s, Token::Number(Number::new_with_kind("6.02e23", NumberType::Scientific)));
    let e = Token::engineering_number("1234.5");
    assert_eq!(
        e,
        Token::Number(Number { literal: "1234.5".to_string(), kind: NumberType::Engineering })
    );
    assert_eq!(Number::new("7").kind, NumberType::Decimal);
    assert_eq!(NumberType::default(), NumberType::Decimal);
    let t = Token::variable("y");
    assert_eq!(t.duplicate(), t);
    assert_eq!(Number::new("1").duplicate(), Number::new("1"));
}
