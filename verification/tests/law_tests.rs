use calculator::builder::ExpressionBuilder;
use calculator::factory::{
    Calculator, NumberToken, OperatorToken, ScientificFactory, StandardTokenFactory, TokenFactory,
};
use calculator::token::{Function, NumberType, Operator, Token};

fn written(t: &Token) -> String {
    match t {
        Token::Number(n) => n.literal.clone(),
        Token::Variable(name) => name.clone(),
        Token::Operator(op) => StandardTokenFactory
            .create_operator_token(match op {
                Operator::Add => "+",
                Operator::Subtract => "-",
                Operator::Multiply => "*",
                Operator::Divide => "/",
                Operator::Power => "^",
            })
            .unwrap()
            .symbol()
            .to_string(),
        Token::Function(f) => match f {
            Function::Sin => "sin".to_string(),
            Function::Cos => "cos".to_string(),
            Function::Tan => "tan".to_string(),
            Function::Sqrt => "sqrt".to_string(),
        },
        Token::OpenParen => "(".to_string(),
        Token::CloseParen => ")".to_string(),
    }
}

#[test]
fn read_tokens_are_written_back() {
    for text in ["12", "-0.5e3", "nan", "x1", "_", "^", "sqrt", "(", ")", "Inf"].iter() {
        let t = Token::from_str(text).unwrap();
        assert_eq!(&written(&t), text);
    }
}

#[test]
fn reading_in_pieces_is_reading_at_once() {
    let mut pieces = Calculator::new(ScientificFactory);
    pieces.parse("2 * ( sin").unwrap();
    let in_pieces = pieces.parse("1e3 )").unwrap();
    let mut once = Calculator::new(ScientificFactory);
    let at_once = once.parse("2 * ( sin\u{2003}1e3 )").unwrap();
    assert_eq!(in_pieces, at_once);
    assert_eq!(at_once.len(), 6);
}

#[test]
fn symbols_read_back_as_their_operators() {
    for op in [Operator::Add, Operator::Subtract, Operator::Multiply, Operator::Divide, Operator::Power].iter() {
        let t = Token::operator(op.clone());
        let text = written(&t);
        let standard: Token = StandardTokenFactory.create_operator_token(&text).unwrap().into();
        let scientific: Token = ScientificFactory.create_operator_token(&text).unwrap().into();
        assert_eq!(standard, t);
        assert_eq!(scientific, t);
    }
    for f in [Function::Sin, Function::Cos, Function::Tan, Function::Sqrt].iter() {
        let t = Token::function(*f);
        let text = written(&t);
        let scientific: Token = ScientificFactory.create_operator_token(&text).unwrap().into();
        assert_eq!(scientific, t);
        assert!(StandardTokenFactory.create_operator_token(&text).is_err());
    }
}

#[test]
fn functions_bind_tighter_than_operators() {
    let pow = ScientificFactory.create_operator_token("^").unwrap().precedence();
    let mul = ScientificFactory.create_operator_token("*").unwrap().precedence();
    let add = ScientificFactory.create_operator_token("+").unwrap().precedence();
    let sin = ScientificFactory.create_operator_token("sin").unwrap().precedence();
    assert!(add < mul && mul < pow && pow < sin);
}

#[test]
fn factories_agree_on_numbers() {
    for text in ["1", "1.5", "2e-3", "-INF", "1e", "x", "1.2.3", ""].iter() {
        let standard = StandardTokenFactory.create_number_token(text);
        let scientific = ScientificFactory.create_number_token(text);
        assert_eq!(standard.is_ok(), scientific.is_ok());
        assert_eq!(standard.is_ok(), text.parse::<f64>().is_ok());
        if let (Ok(a), Ok(b)) = (standard, scientific) {
            assert_eq!(a.number().kind, NumberType::Decimal);
            assert_eq!(&a.number().literal, text);
            let from_text = Token::from_str(text).unwrap();
            let b: Token = b.into();
            assert_eq!(b, from_text);
        }
    }
}

#[test]
fn built_expressions_are_balanced() {
    let e = ExpressionBuilder::new()
        .open_paren()
        .open_paren()
        .number("1")
        .close_paren()
        .unwrap()
        .operator(Operator::Divide)
        .variable("z")
        .close_paren()
        .unwrap()
        .build()
        .unwrap();
    let mut depth = 0i32;
    for t in e.tokens() {
        match t {
            Token::OpenParen => depth += 1,
            Token::CloseParen => depth -= 1,
            _ => {}
        }
        assert!(depth >= 0);
    }
    assert_eq!(depth, 0);
}
