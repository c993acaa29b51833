use calculator::factory::{
    Calculator, NumberToken, OperatorToken, ScientificFactory, ScientificOperatorToken,
    StandardTokenFactory, TokenFactory,
};
use calculator::token::{Function, NumberType, Operator, Token};

fn value_of<N: NumberToken>(n: &N) -> f64 {
    n.number().literal.parse::<f64>().unwrap()
}

#[test]
fn test_standard_factory_number() {
    let f = StandardTokenFactory;
    let n = f.create_number_token("99").unwrap();
    assert_eq!(value_of(&n), 99.0);
}

#[test]
fn test_standard_factory_operator() {
    let f = StandardTokenFactory;
    let op = f.create_operator_token("*").unwrap();
    assert_eq!(op.symbol(), "*");
}

#[test]
fn test_scientific_factory_scientific_notation() {
    let f = ScientificFactory;
    let n = f.create_number_token("1.23e-4").unwrap();
    assert_eq!(value_of(&n), 0.000123);
}

#[test]
fn test_scientific_factory_function_op() {
    let f = ScientificFactory;
    let op = f.create_operator_token("sin").unwrap();
    assert_eq!(op.symbol(), "sin");
}

#[test]
fn test_parse_standard_simple() {
    let mut calc = Calculator::new(StandardTokenFactory);
    calc.parse("2 + 3").unwrap();
    assert_eq!(calc.expression().len(), 3);
}

#[test]
fn test_parse_standard_with_paren() {
    let mut calc = Calculator::new(StandardTokenFactory);
    calc.parse("2 + ( 3 * 4 )").unwrap();
    assert_eq!(calc.expression().len(), 7);
}

#[test]
fn test_parse_scientific_with_function() {
    let mut calc = Calculator::new(ScientificFactory);
    calc.parse("sin + 1").unwrap();
    assert_eq!(calc.expression().len(), 3);
}

#[test]
fn test_parse_invalid_token_fails() {
    let mut calc = Calculator::new(StandardTokenFactory);
    assert!(calc.parse("2 + @").is_err());
}

#[test]
fn errors_name_the_text() {
    assert_eq!(StandardTokenFactory.create_number_token("abc").unwrap_err(), "Invalid number: abc");
    assert_eq!(StandardTokenFactory.create_operator_token("sin").unwrap_err(), "Invalid operator: sin");
    assert_eq!(ScientificFactory.create_operator_token("%").unwrap_err(), "Invalid operator: %");
    let mut calc = Calculator::new(StandardTokenFactory);
    assert_eq!(calc.parse("2 + @ 3").unwrap_err(), "Invalid number: @");
    // the words before the failing one stay read
    assert_eq!(calc.expression().len(), 2);
}

#[test]
fn precedences_and_symbols() {
    let f = StandardTokenFactory;
    let expected = [("+", 1u8), ("-", 1), ("*", 2), ("/", 2), ("^", 3)];
    for (text, prec) in expected.iter() {
        let op = f.create_operator_token(text).unwrap();
        assert_eq!(op.precedence(), *prec);
        assert_eq!(op.symbol(), *text);
        let sci = ScientificFactory.create_operator_token(text).unwrap();
        assert_eq!(sci.precedence(), *prec);
        assert_eq!(sci.symbol(), *text);
    }
    for text in ["sin", "cos", "tan", "sqrt"].iter() {
        let op = ScientificFactory.create_operator_token(text).unwrap();
        assert_eq!(op.precedence(), 4);
        assert_eq!(op.symbol(), *text);
    }
}

#[test]
fn products_convert_into_tokens() {
    let n: Token = StandardTokenFactory.create_number_token("2.5").unwrap().into();
    assert!(matches!(n, Token::Number(ref num) if num.literal == "2.5" && num.kind == NumberType::Decimal));
    let s: Token = ScientificFactory.create_number_token("2e3").unwrap().into();
    assert!(matches!(s, Token::Number(ref num) if num.kind == NumberType::Scientific));
    let d: Token = ScientificFactory.create_number_token("2.0").unwrap().into();
    assert!(matches!(d, Token::Number(ref num) if num.kind == NumberType::Decimal));
    let op: Token = StandardTokenFactory.create_operator_token("^").unwrap().into();
    assert_eq!(op, Token::Operator(Operator::Power));
    let f: Token = ScientificOperatorToken::Function(Function::Tan).into();
    assert_eq!(f, Token::Function(Function::Tan));
    let b: Token = ScientificOperatorToken::Basic(Operator::Divide).into();
    assert_eq!(b, Token::Operator(Operator::Divide));
}

#[test]
fn parse_appends_to_the_expression() {
    let mut calc = Calculator::new(ScientificFactory);
    let first = calc.parse("  1.5e3\t*  (").unwrap();
    assert_eq!(first.len(), 3);
    let all = calc.parse("cos x )").err();
    assert_eq!(all, Some("Invalid number: x".to_string()));
    assert_eq!(calc.expression().len(), 4);
    let again = calc.parse("sqrt 2 )").unwrap();
    assert_eq!(again.len(), 7);
    assert_eq!(again[0], Token::from_str("1.5e3").unwrap());
    assert_eq!(again[3], Token::Function(Function::Cos));
    assert_eq!(again[6], Token::CloseParen);
    let mut empty = Calculator::new(StandardTokenFactory);
    assert_eq!(empty.parse(" \n ").unwrap().len(), 0);
}
