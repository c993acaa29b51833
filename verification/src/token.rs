use vstd::prelude::*;
use crate::lexical::{
    chars_are_float_literal, chars_are_name, chars_equal, chars_of, contains_char, is_ascii_name,
    is_alphanumeric_char, is_ascii_text, is_float_literal, is_name,
};

verus! {

/// The notation a number is written in.
#[derive(Debug, Clone, Copy, PartialEq, Eq, Structural)]
pub enum NumberType {
    Decimal,
    Scientific,
    Engineering,
}

/// Another name for the notation of a number.
pub type NumberKind = NumberType;

impl Default for NumberType {
    fn default() -> (r: Self)
        ensures
            r == NumberType::Decimal,
    {
        NumberType::Decimal
    }
}

/// A binary operator.
#[derive(Debug, Clone, Copy, PartialEq, Eq, Structural)]
pub enum Operator {
    Add,
    Subtract,
    Multiply,
    Divide,
    Power,
}

/// A function of one argument.
#[derive(Debug, Clone, Copy, PartialEq, Eq, Structural)]
pub enum Function {
    Sin,
    Cos,
    Tan,
    Sqrt,
}

/// A number: its literal text, a literal of the standard floating-point grammar, and
/// the notation it is written in. Its value is the value of the literal. The
/// constructors take only float literals. Numbers compare by literal and notation,
/// not by value: `2` and `2.0` are different numbers, and a NaN literal equals itself.
#[derive(Debug, Clone, PartialEq)]
pub struct Number {
    pub literal: String,
    pub kind: NumberType,
}

/// The model of a number: its literal as characters, and its notation.
pub struct NumberView {
    pub literal: Seq<char>,
    pub kind: NumberType,
}

impl View for Number {
    type V = NumberView;

    open spec fn view(&self) -> NumberView {
        NumberView { literal: self.literal@, kind: self.kind }
    }
}

/// One token of an expression.
#[derive(Debug, Clone, PartialEq)]
pub enum Token {
    Number(Number),
    Operator(Operator),
    Function(Function),
    Variable(String),
    OpenParen,
    CloseParen,
}

/// The model of a token, with texts as sequences of characters.
pub enum TokenView {
    Number(NumberView),
    Operator(Operator),
    Function(Function),
    Variable(Seq<char>),
    OpenParen,
    CloseParen,
}

impl View for Token {
    type V = TokenView;

    open spec fn view(&self) -> TokenView {
        match self {
            Token::Number(n) => TokenView::Number(n@),
            Token::Operator(op) => TokenView::Operator(*op),
            Token::Function(f) => TokenView::Function(*f),
            Token::Variable(name) => TokenView::Variable(name@),
            Token::OpenParen => TokenView::OpenParen,
            Token::CloseParen => TokenView::CloseParen,
        }
    }
}

/// `prefix` followed by `s`.
pub fn message(prefix: &str, s: &str) -> (r: String)
    ensures
        r@ == prefix@ + s@,
{
    let mut r = String::from_str(prefix);
    r.append(s);
    r
}

impl Number {
    /// A number in decimal notation.
    pub fn new(literal: &str) -> (r: Self)
        requires
            is_float_literal(literal@),
        ensures
            r@ == (NumberView { literal: literal@, kind: NumberType::Decimal }),
    {
        Number { literal: String::from_str(literal), kind: NumberType::default() }
    }

    /// A number in the notation `kind`.
    pub fn new_with_kind(literal: &str, kind: NumberType) -> (r: Self)
        requires
            is_float_literal(literal@),
        ensures
            r@ == (NumberView { literal: literal@, kind: kind }),
    {
        Number { literal: String::from_str(literal), kind }
    }

    /// A copy of this number.
    pub fn duplicate(&self) -> (r: Self)
        ensures
            r == *self,
    {
        Number { literal: self.literal.clone(), kind: self.kind }
    }
}

/// The notation a literal is read in: scientific where it has an exponent marker.
pub open spec fn notation_of(literal: Seq<char>) -> NumberType {
    if literal.contains('e') || literal.contains('E') {
        NumberType::Scientific
    } else {
        NumberType::Decimal
    }
}

/// The operator, function or parenthesis that `s` spells, if any.
pub open spec fn symbol_token(s: Seq<char>) -> Option<TokenView> {
    if s.len() == 1 {
        let c = s[0];
        if c == '+' {
            Some(TokenView::Operator(Operator::Add))
        } else if c == '-' {
            Some(TokenView::Operator(Operator::Subtract))
        } else if c == '*' {
            Some(TokenView::Operator(Operator::Multiply))
        } else if c == '/' {
            Some(TokenView::Operator(Operator::Divide))
        } else if c == '^' {
            Some(TokenView::Operator(Operator::Power))
        } else if c == '(' {
            Some(TokenView::OpenParen)
        } else if c == ')' {
            Some(TokenView::CloseParen)
        } else {
            None
        }
    } else if s == seq!['s', 'i', 'n'] {
        Some(TokenView::Function(Function::Sin))
    } else if s == seq!['c', 'o', 's'] {
        Some(TokenView::Function(Function::Cos))
    } else if s == seq!['t', 'a', 'n'] {
        Some(TokenView::Function(Function::Tan))
    } else if s == seq!['s', 'q', 'r', 't'] {
        Some(TokenView::Function(Function::Sqrt))
    } else {
        None
    }
}

/// The token that the text `s` reads as: a number where it is a float literal, else an
/// operator, function or parenthesis, else a variable where it is a name; none otherwise.
pub open spec fn token_of_text(s: Seq<char>) -> Option<TokenView> {
    if is_float_literal(s) {
        Some(TokenView::Number(NumberView { literal: s, kind: notation_of(s) }))
    } else if symbol_token(s) is Some {
        symbol_token(s)
    } else if is_name(s) {
        Some(TokenView::Variable(s))
    } else {
        None
    }
}

/// The operator, function or parenthesis that `v` spells, if any.
pub(crate) fn symbol_token_of_chars(v: &Vec<char>) -> (r: Option<Token>)
    ensures
        match r {
            Some(t) => symbol_token(v@) == Some(t@),
            None => symbol_token(v@) is None,
        },
{
    if v.len() == 1 {
        let c = v[0];
        if c == '+' {
            Some(Token::Operator(Operator::Add))
        } else if c == '-' {
            Some(Token::Operator(Operator::Subtract))
        } else if c == '*' {
            Some(Token::Operator(Operator::Multiply))
        } else if c == '/' {
            Some(Token::Operator(Operator::Divide))
        } else if c == '^' {
            Some(Token::Operator(Operator::Power))
        } else if c == '(' {
            Some(Token::OpenParen)
        } else if c == ')' {
            Some(Token::CloseParen)
        } else {
            None
        }
    } else if chars_equal(v, &['s', 'i', 'n']) {
        Some(Token::Function(Function::Sin))
    } else if chars_equal(v, &['c', 'o', 's']) {
        assert(v@[0] != seq!['s', 'i', 'n'][0]);
        Some(Token::Function(Function::Cos))
    } else if chars_equal(v, &['t', 'a', 'n']) {
        assert(v@[0] != seq!['s', 'i', 'n'][0] && v@[0] != seq!['c', 'o', 's'][0]);
        Some(Token::Function(Function::Tan))
    } else if chars_equal(v, &['s', 'q', 'r', 't']) {
        Some(Token::Function(Function::Sqrt))
    } else {
        None
    }
}

impl Token {
    /// A number token in decimal notation.
    pub fn number(literal: &str) -> (r: Self)
        requires
            is_float_literal(literal@),
        ensures
            r@ == TokenView::Number(NumberView { literal: literal@, kind: NumberType::Decimal }),
    {
        Token::Number(Number::new(literal))
    }

    /// A number token in scientific notation.
    pub fn scientific_number(literal: &str) -> (r: Self)
        requires
            is_float_literal(literal@),
        ensures
            r@ == TokenView::Number(NumberView { literal: literal@, kind: NumberType::Scientific }),
    {
        Token::Number(Number::new_with_kind(literal, NumberType::Scientific))
    }

    /// A number token in engineering notation.
    pub fn engineering_number(literal: &str) -> (r: Self)
        requires
            is_float_literal(literal@),
        ensures
            r@ == TokenView::Number(
                NumberView { literal: literal@, kind: NumberType::Engineering },
            ),
    {
        Token::Number(Number::new_with_kind(literal, NumberType::Engineering))
    }

    /// An operator token.
    pub fn operator(op: Operator) -> (r: Self)
        ensures
            r == Token::Operator(op),
    {
        Token::Operator(op)
    }

    /// A function token.
    pub fn function(func: Function) -> (r: Self)
        ensures
            r == Token::Function(func),
    {
        Token::Function(func)
    }

    /// A variable token.
    pub fn variable(name: &str) -> (r: Self)
        ensures
            r@ == TokenView::Variable(name@),
    {
        Token::Variable(String::from_str(name))
    }

    /// A copy of this token.
    pub fn duplicate(&self) -> (r: Self)
        ensures
            r == *self,
    {
        match self {
            Token::Number(n) => Token::Number(n.duplicate()),
            Token::Operator(op) => Token::Operator(*op),
            Token::Function(f) => Token::Function(*f),
            Token::Variable(name) => Token::Variable(name.clone()),
            Token::OpenParen => Token::OpenParen,
            Token::CloseParen => Token::CloseParen,
        }
    }

    /// Reads one token from its text.
    pub fn from_str(s: &str) -> (r: Result<Self, String>)
        ensures
            match r {
                Ok(t) => token_of_text(s@) == Some(t@),
                Err(e) => token_of_text(s@) is None && e@ == "Invalid token: "@ + s@,
            },
            is_ascii_text(s@) && !is_float_literal(s@) && symbol_token(s@) is None ==> (is_name(s@)
                <==> is_ascii_name(s@)),
    {
        let v = chars_of(s);
        if chars_are_float_literal(&v) {
            if contains_char(&v, 'e') || contains_char(&v, 'E') {
                return Ok(Self::scientific_number(s));
            }
            return Ok(Self::number(s));
        }
        match symbol_token_of_chars(&v) {
            Some(t) => Ok(t),
            None => {
                if chars_are_name(&v) {
                    Ok(Self::variable(s))
                } else {
                    Err(message("Invalid token: ", s))
                }
            },
        }
    }
}

/// The text an operator is written as.
pub open spec fn operator_symbol(op: Operator) -> Seq<char> {
    match op {
        Operator::Add => seq!['+'],
        Operator::Subtract => seq!['-'],
        Operator::Multiply => seq!['*'],
        Operator::Divide => seq!['/'],
        Operator::Power => seq!['^'],
    }
}

/// The name a function is written as.
pub open spec fn function_symbol(func: Function) -> Seq<char> {
    match func {
        Function::Sin => seq!['s', 'i', 'n'],
        Function::Cos => seq!['c', 'o', 's'],
        Function::Tan => seq!['t', 'a', 'n'],
        Function::Sqrt => seq!['s', 'q', 'r', 't'],
    }
}

/// The text a token is written as: a number's literal, a variable's name, the symbol of
/// an operator, the name of a function, or the parenthesis.
pub open spec fn token_text(t: TokenView) -> Seq<char> {
    match t {
        TokenView::Number(n) => n.literal,
        TokenView::Variable(name) => name,
        TokenView::Operator(op) => operator_symbol(op),
        TokenView::Function(f) => function_symbol(f),
        TokenView::OpenParen => seq!['('],
        TokenView::CloseParen => seq![')'],
    }
}

/// Reading loses nothing: a token read from a text is written as that same text.
pub proof fn lemma_read_token_is_written_back(s: Seq<char>)
    ensures
        token_of_text(s) matches Some(t) ==> token_text(t) == s,
{
    if !is_float_literal(s) && symbol_token(s) is Some {
        if s.len() == 1 {
            assert(s =~= seq![s[0]]);
        }
    }
}

/// Every operator, function and parenthesis reads back as itself from its text, and
/// so does every variable whose name is no number and no symbol.
pub proof fn lemma_written_token_is_read_back(t: TokenView)
    ensures
        !(t is Number) && !(t is Variable) ==> token_of_text(token_text(t)) == Some(t),
        t matches TokenView::Variable(name) && is_name(name) && !is_float_literal(name)
            && symbol_token(name) is None ==> token_of_text(token_text(t)) == Some(t),
{
    match t {
        TokenView::Operator(_) | TokenView::OpenParen | TokenView::CloseParen => {
            assert(!is_float_literal(token_text(t))) by {
                lemma_one_symbol_is_no_float(token_text(t));
            }
        },
        TokenView::Function(f) => {
            assert(!is_float_literal(token_text(t))) by {
                lemma_function_name_is_no_float(f);
            }
        },
        _ => {},
    }
}

proof fn lemma_one_symbol_is_no_float(s: Seq<char>)
    requires
        s.len() == 1,
        !crate::lexical::is_digit(s[0]),
    ensures
        !is_float_literal(s),
{
    crate::lexical::lemma_float_literal_of_one_char(s);
}

proof fn lemma_function_name_is_no_float(f: Function)
    ensures
        !is_float_literal(
            token_text(TokenView::Function(f)),
        ),
{
    let s = token_text(TokenView::Function(f));
    crate::lexical::lemma_float_literal_first_char(s);
}

/// `s` has an exponent marker: the letter `e` or `E` somewhere in it.
pub open spec fn has_exponent_marker(s: Seq<char>) -> bool {
    exists|i: int| 0 <= i < s.len() && (#[trigger] s[i] == 'e' || s[i] == 'E')
}

/// A text that reads as a number reads as that very literal, in scientific notation
/// exactly when it has an `e` or an `E`, and in decimal notation otherwise.
pub proof fn lemma_number_notation(s: Seq<char>)
    ensures
        token_of_text(s) matches Some(TokenView::Number(n)) ==> {
            &&& n.literal == s
            &&& n.kind == NumberType::Scientific || n.kind == NumberType::Decimal
            &&& (n.kind == NumberType::Scientific <==> has_exponent_marker(s))
        },
        is_float_literal(s) ==> token_of_text(s) is Some && token_of_text(s)->0 is Number,
{
    if has_exponent_marker(s) {
        let i = choose|i: int| 0 <= i < s.len() && (#[trigger] s[i] == 'e' || s[i] == 'E');
        if s[i] == 'e' {
            assert(s.contains('e'));
        } else {
            assert(s.contains('E'));
        }
    }
    if s.contains('e') {
        let i = choose|i: int| 0 <= i < s.len() && s[i] == 'e';
        assert(s[i] == 'e' || s[i] == 'E');
    }
    if s.contains('E') {
        let i = choose|i: int| 0 <= i < s.len() && s[i] == 'E';
        assert(s[i] == 'e' || s[i] == 'E');
    }
}

/// The operators, functions and parentheses are spelled by their own texts only, and
/// they are neither numbers nor variables; a text reads as a variable only where it is
/// that very text and each of its characters is alphanumeric or an underscore.
pub proof fn lemma_symbols_and_variables(s: Seq<char>)
    ensures
        symbol_token(s) matches Some(t) ==> !(t is Variable) && !(t is Number) && token_text(t)
            == s,
        token_of_text(s) matches Some(TokenView::Variable(name)) ==> {
            &&& name == s
            &&& forall|i: int|
                0 <= i < s.len() ==> (is_alphanumeric_char(#[trigger] s[i]) || s[i] == '_')
        },
{
    if symbol_token(s) is Some && s.len() == 1 {
        assert(s =~= seq![s[0]]);
    }
}

} // verus!
