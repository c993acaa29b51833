use vstd::prelude::*;
use vstd::std_specs::convert::IntoSpec;
use crate::builder::token_views;
use crate::lexical::{
    chars_are_float_literal, chars_of, contains_char, has_white_space, is_float_literal,
    lemma_words_of_joined, split_whitespace, text_views, whitespace_words,
};
use crate::token::{
    function_symbol, has_exponent_marker, lemma_number_notation, message, notation_of, operator_symbol, symbol_token, symbol_token_of_chars,
    token_of_text, Function, Number, NumberType, NumberView, Operator, Token, TokenView,
};

verus! {

// ------------------------------------------------------------------------
// Abstract products
// ------------------------------------------------------------------------

/// A number token of some calculator mode.
pub trait NumberToken {
    spec fn number_view(&self) -> NumberView;

    /// The number it carries.
    fn number(&self) -> (r: &Number)
        ensures
            r@ == self.number_view(),
    ;
}

/// An operator token of some calculator mode.
pub trait OperatorToken {
    /// How tightly it binds: a higher value binds tighter.
    fn precedence(&self) -> u8;

    /// The text it is written as.
    fn symbol(&self) -> &'static str;
}

pub open spec fn operator_precedence(op: Operator) -> u8 {
    match op {
        Operator::Add | Operator::Subtract => 1,
        Operator::Multiply | Operator::Divide => 2,
        Operator::Power => 3,
    }
}

/// Functions bind tighter than every operator.
pub open spec fn function_precedence() -> u8 {
    4
}

fn precedence_of_operator(op: Operator) -> (r: u8)
    ensures
        r == operator_precedence(op),
{
    match op {
        Operator::Add | Operator::Subtract => 1,
        Operator::Multiply | Operator::Divide => 2,
        Operator::Power => 3,
    }
}

fn symbol_of_operator(op: Operator) -> (r: &'static str)
    ensures
        r@ == operator_symbol(op),
{
    match op {
        Operator::Add => {
            proof {
                reveal_strlit("+");
            }
            "+"
        },
        Operator::Subtract => {
            proof {
                reveal_strlit("-");
            }
            "-"
        },
        Operator::Multiply => {
            proof {
                reveal_strlit("*");
            }
            "*"
        },
        Operator::Divide => {
            proof {
                reveal_strlit("/");
            }
            "/"
        },
        Operator::Power => {
            proof {
                reveal_strlit("^");
            }
            "^"
        },
    }
}

fn symbol_of_function(func: Function) -> (r: &'static str)
    ensures
        r@ == function_symbol(func),
{
    match func {
        Function::Sin => {
            proof {
                reveal_strlit("sin");
            }
            "sin"
        },
        Function::Cos => {
            proof {
                reveal_strlit("cos");
            }
            "cos"
        },
        Function::Tan => {
            proof {
                reveal_strlit("tan");
            }
            "tan"
        },
        Function::Sqrt => {
            proof {
                reveal_strlit("sqrt");
            }
            "sqrt"
        },
    }
}

// ------------------------------------------------------------------------
// Standard tokens
// ------------------------------------------------------------------------

/// A number of the standard calculator mode.
#[derive(Debug, PartialEq)]
pub struct StandardNumberToken(Number);

impl NumberToken for StandardNumberToken {
    closed spec fn number_view(&self) -> NumberView {
        self.0@
    }

    fn number(&self) -> (r: &Number) {
        &self.0
    }
}

impl From<StandardNumberToken> for Token {
    fn from(num: StandardNumberToken) -> (r: Token) {
        Token::Number(num.0)
    }
}

impl vstd::std_specs::convert::FromSpecImpl<StandardNumberToken> for Token {
    open spec fn obeys_from_spec() -> bool {
        true
    }

    closed spec fn from_spec(v: StandardNumberToken) -> Token {
        Token::Number(v.0)
    }
}

/// An operator of the standard calculator mode.
#[derive(Debug, PartialEq)]
pub struct StandardOperatorToken(Operator);

impl StandardOperatorToken {
    pub closed spec fn operator(&self) -> Operator {
        self.0
    }
}

impl OperatorToken for StandardOperatorToken {
    fn precedence(&self) -> (r: u8)
        ensures
            r == operator_precedence(self.operator()),
    {
        precedence_of_operator(self.0)
    }

    fn symbol(&self) -> (r: &'static str)
        ensures
            r@ == operator_symbol(self.operator()),
    {
        symbol_of_operator(self.0)
    }
}

impl From<StandardOperatorToken> for Token {
    fn from(op: StandardOperatorToken) -> (r: Token) {
        Token::Operator(op.0)
    }
}

impl vstd::std_specs::convert::FromSpecImpl<StandardOperatorToken> for Token {
    open spec fn obeys_from_spec() -> bool {
        true
    }

    closed spec fn from_spec(v: StandardOperatorToken) -> Token {
        Token::Operator(v.0)
    }
}

// ------------------------------------------------------------------------
// Scientific tokens
// ------------------------------------------------------------------------

/// A number of the scientific calculator mode.
#[derive(Debug, PartialEq)]
pub struct ScientificNumberToken(Number);

impl NumberToken for ScientificNumberToken {
    closed spec fn number_view(&self) -> NumberView {
        self.0@
    }

    fn number(&self) -> (r: &Number) {
        &self.0
    }
}

impl From<ScientificNumberToken> for Token {
    fn from(num: ScientificNumberToken) -> (r: Token) {
        Token::Number(num.0)
    }
}

impl vstd::std_specs::convert::FromSpecImpl<ScientificNumberToken> for Token {
    open spec fn obeys_from_spec() -> bool {
        true
    }

    closed spec fn from_spec(v: ScientificNumberToken) -> Token {
        Token::Number(v.0)
    }
}

/// An operator of the scientific calculator mode: a basic operator or a function.
#[derive(Debug, PartialEq)]
pub enum ScientificOperatorToken {
    Basic(Operator),
    Function(Function),
}

pub open spec fn scientific_precedence(op: ScientificOperatorToken) -> u8 {
    match op {
        ScientificOperatorToken::Basic(o) => operator_precedence(o),
        ScientificOperatorToken::Function(_) => function_precedence(),
    }
}

pub open spec fn scientific_symbol(op: ScientificOperatorToken) -> Seq<char> {
    match op {
        ScientificOperatorToken::Basic(o) => operator_symbol(o),
        ScientificOperatorToken::Function(f) => function_symbol(f),
    }
}

impl OperatorToken for ScientificOperatorToken {
    fn precedence(&self) -> (r: u8)
        ensures
            r == scientific_precedence(*self),
    {
        match self {
            ScientificOperatorToken::Basic(op) => precedence_of_operator(*op),
            ScientificOperatorToken::Function(_) => 4,
        }
    }

    fn symbol(&self) -> (r: &'static str)
        ensures
            r@ == scientific_symbol(*self),
    {
        match self {
            ScientificOperatorToken::Basic(op) => symbol_of_operator(*op),
            ScientificOperatorToken::Function(func) => symbol_of_function(*func),
        }
    }
}

impl From<ScientificOperatorToken> for Token {
    fn from(op: ScientificOperatorToken) -> (r: Token) {
        match op {
            ScientificOperatorToken::Basic(o) => Token::Operator(o),
            ScientificOperatorToken::Function(f) => Token::Function(f),
        }
    }
}

impl vstd::std_specs::convert::FromSpecImpl<ScientificOperatorToken> for Token {
    open spec fn obeys_from_spec() -> bool {
        true
    }

    open spec fn from_spec(v: ScientificOperatorToken) -> Token {
        match v {
            ScientificOperatorToken::Basic(o) => Token::Operator(o),
            ScientificOperatorToken::Function(f) => Token::Function(f),
        }
    }
}

// ------------------------------------------------------------------------
// The abstract factory
// ------------------------------------------------------------------------

/// Makes the matching number and operator tokens of one calculator mode.
pub trait TokenFactory {
    type Number: NumberToken + Into<Token>;

    type Operator: OperatorToken + Into<Token>;

    /// The number token made from `s`, as the number it carries (which is also the token
    /// it becomes); none where `s` is no number.
    spec fn number_token(&self, s: Seq<char>) -> Option<TokenView>;

    /// The token that the operator made from `s` becomes; none where `s` is no operator.
    spec fn operator_token(&self, s: Seq<char>) -> Option<TokenView>;

    /// The message for a text that is no number.
    spec fn number_error(&self, s: Seq<char>) -> Seq<char>;

    /// The message for a text that is no operator.
    spec fn operator_error(&self, s: Seq<char>) -> Seq<char>;

    /// Both products convert into tokens by their `From` conversions.
    proof fn lemma_products_convert()
        ensures
            <Self::Number as IntoSpec<Token>>::obeys_into_spec(),
            <Self::Operator as IntoSpec<Token>>::obeys_into_spec(),
    ;

    fn create_number_token(&self, s: &str) -> (r: Result<Self::Number, String>)
        ensures
            match r {
                Ok(n) => {
                    &&& self.number_token(s@) == Some(TokenView::Number(n.number_view()))
                    &&& self.number_token(s@) == Some(
                        <Self::Number as IntoSpec<Token>>::into_spec(n)@,
                    )
                },
                Err(e) => self.number_token(s@) is None && e@ == self.number_error(s@),
            },
    ;

    fn create_operator_token(&self, s: &str) -> (r: Result<Self::Operator, String>)
        ensures
            match r {
                Ok(op) => self.operator_token(s@) == Some(
                    <Self::Operator as IntoSpec<Token>>::into_spec(op)@,
                ),
                Err(e) => self.operator_token(s@) is None && e@ == self.operator_error(s@),
            },
    ;
}

/// The number, in the notation `kind`, that a float literal reads as; none for other text.
pub open spec fn number_of_text(s: Seq<char>, kind: NumberType) -> Option<TokenView> {
    if is_float_literal(s) {
        Some(TokenView::Number(NumberView { literal: s, kind: kind }))
    } else {
        None
    }
}

// ------------------------------------------------------------------------
// The standard factory
// ------------------------------------------------------------------------

/// Numbers in decimal notation and the five basic operators.
#[derive(Debug)]
pub struct StandardTokenFactory;

impl TokenFactory for StandardTokenFactory {
    type Number = StandardNumberToken;

    type Operator = StandardOperatorToken;

    open spec fn number_token(&self, s: Seq<char>) -> Option<TokenView> {
        number_of_text(s, NumberType::Decimal)
    }

    open spec fn operator_token(&self, s: Seq<char>) -> Option<TokenView> {
        match symbol_token(s) {
            Some(TokenView::Operator(op)) => Some(TokenView::Operator(op)),
            _ => None,
        }
    }

    open spec fn number_error(&self, s: Seq<char>) -> Seq<char> {
        "Invalid number: "@ + s
    }

    open spec fn operator_error(&self, s: Seq<char>) -> Seq<char> {
        "Invalid operator: "@ + s
    }

    proof fn lemma_products_convert() {
    }

    fn create_number_token(&self, s: &str) -> (r: Result<Self::Number, String>) {
        let v = chars_of(s);
        if chars_are_float_literal(&v) {
            Ok(StandardNumberToken(Number::new(s)))
        } else {
            Err(message("Invalid number: ", s))
        }
    }

    fn create_operator_token(&self, s: &str) -> (r: Result<Self::Operator, String>) {
        let v = chars_of(s);
        match symbol_token_of_chars(&v) {
            Some(Token::Operator(op)) => Ok(StandardOperatorToken(op)),
            _ => Err(message("Invalid operator: ", s)),
        }
    }
}

// ------------------------------------------------------------------------
// The scientific factory
// ------------------------------------------------------------------------

/// Numbers in decimal or scientific notation, the basic operators and the functions.
#[derive(Debug)]
pub struct ScientificFactory;

impl TokenFactory for ScientificFactory {
    type Number = ScientificNumberToken;

    type Operator = ScientificOperatorToken;

    open spec fn number_token(&self, s: Seq<char>) -> Option<TokenView> {
        number_of_text(s, notation_of(s))
    }

    open spec fn operator_token(&self, s: Seq<char>) -> Option<TokenView> {
        match symbol_token(s) {
            Some(TokenView::Operator(op)) => Some(TokenView::Operator(op)),
            Some(TokenView::Function(f)) => Some(TokenView::Function(f)),
            _ => None,
        }
    }

    open spec fn number_error(&self, s: Seq<char>) -> Seq<char> {
        "Invalid number: "@ + s
    }

    open spec fn operator_error(&self, s: Seq<char>) -> Seq<char> {
        "Invalid operator: "@ + s
    }

    proof fn lemma_products_convert() {
    }

    fn create_number_token(&self, s: &str) -> (r: Result<Self::Number, String>) {
        let v = chars_of(s);
        if chars_are_float_literal(&v) {
            let kind = if contains_char(&v, 'e') || contains_char(&v, 'E') {
                NumberType::Scientific
            } else {
                NumberType::Decimal
            };
            Ok(ScientificNumberToken(Number::new_with_kind(s, kind)))
        } else {
            Err(message("Invalid number: ", s))
        }
    }

    fn create_operator_token(&self, s: &str) -> (r: Result<Self::Operator, String>) {
        let v = chars_of(s);
        match symbol_token_of_chars(&v) {
            Some(Token::Operator(op)) => Ok(ScientificOperatorToken::Basic(op)),
            Some(Token::Function(f)) => Ok(ScientificOperatorToken::Function(f)),
            _ => Err(message("Invalid operator: ", s)),
        }
    }
}

// ------------------------------------------------------------------------
// The client: a calculator that reads input with one factory
// ------------------------------------------------------------------------

/// The token a whitespace-separated word of input reads as under factory `f`:
/// a parenthesis, else an operator of `f`, else a number of `f`.
pub open spec fn word_token<F: TokenFactory>(f: F, w: Seq<char>) -> Option<TokenView> {
    if w == seq!['('] {
        Some(TokenView::OpenParen)
    } else if w == seq![')'] {
        Some(TokenView::CloseParen)
    } else if f.operator_token(w) is Some {
        f.operator_token(w)
    } else {
        f.number_token(w)
    }
}

/// Every word of `ws` reads as a token under `f`.
pub open spec fn all_words_read<F: TokenFactory>(f: F, ws: Seq<Seq<char>>) -> bool {
    forall|i: int| 0 <= i < ws.len() ==> (#[trigger] word_token(f, ws[i])) is Some
}

/// The tokens that the words `ws` read as under `f`.
pub open spec fn tokens_of_words<F: TokenFactory>(f: F, ws: Seq<Seq<char>>) -> Seq<TokenView> {
    ws.map_values(|w: Seq<char>| word_token(f, w)->0)
}

/// Reads whitespace-separated input into tokens of one calculator mode.
pub struct Calculator<F: TokenFactory> {
    factory: F,
    expression: Vec<Token>,
}

/// A copy of every token of `v`.
fn copy_tokens(v: &Vec<Token>) -> (r: Vec<Token>)
    ensures
        r@ == v@,
{
    let mut r: Vec<Token> = Vec::new();
    let mut i: usize = 0;
    while i < v.len()
        invariant
            i <= v.len(),
            r@ == v@.take(i as int),
        decreases v.len() - i,
    {
        r.push(v[i].duplicate());
        i = i + 1;
        assert(r@ =~= v@.take(i as int));
    }
    assert(v@.take(v.len() as int) =~= v@);
    r
}

impl<F: TokenFactory> Calculator<F> {
    pub closed spec fn factory(&self) -> F {
        self.factory
    }

    /// The tokens read so far.
    pub closed spec fn expression_views(&self) -> Seq<TokenView> {
        token_views(self.expression@)
    }

    pub fn new(factory: F) -> (r: Self)
        ensures
            r.factory() == factory,
            r.expression_views() == Seq::<TokenView>::empty(),
    {
        let r = Calculator { factory, expression: Vec::new() };
        assert(token_views(r.expression@) =~= Seq::<TokenView>::empty());
        r
    }

    /// The tokens read so far.
    pub fn expression(&self) -> (r: &Vec<Token>)
        ensures
            token_views(r@) == self.expression_views(),
    {
        &self.expression
    }

    /// Reads the whitespace-separated words of `input`, appending their tokens to the
    /// expression, and returns the whole expression. At the first word that is neither
    /// a parenthesis, an operator nor a number it stops with the factory's number error;
    /// the tokens of the words before it stay appended.
    pub fn parse(&mut self, input: &str) -> (r: Result<Vec<Token>, String>)
        ensures
            final(self).factory() == old(self).factory(),
            ({
                let f = old(self).factory();
                let ws = whitespace_words(input@);
                match r {
                    Ok(v) => {
                        &&& all_words_read(f, ws)
                        &&& final(self).expression_views() == old(self).expression_views()
                            + tokens_of_words(f, ws)
                        &&& token_views(v@) == final(self).expression_views()
                    },
                    Err(e) => exists|k: int|
                        {
                            &&& 0 <= k < ws.len()
                            &&& all_words_read(f, ws.take(k))
                            &&& word_token(f, #[trigger] ws[k]) is None
                            &&& final(self).expression_views() == old(self).expression_views()
                                + tokens_of_words(f, ws.take(k))
                            &&& e@ == f.number_error(ws[k])
                        },
                }
            }),
    {
        let ghost f = self.factory;
        let ghost start = token_views(self.expression@);
        let words = split_whitespace(input);
        let ghost ws = whitespace_words(input@);
        let mut i: usize = 0;
        while i < words.len()
            invariant
                self.factory == f,
                f == old(self).factory,
                start == token_views(old(self).expression@),
                ws == whitespace_words(input@),
                text_views(words@) == ws,
                i <= words.len(),
                all_words_read(f, ws.take(i as int)),
                token_views(self.expression@) == start + tokens_of_words(f, ws.take(i as int)),
            decreases words.len() - i,
        {
            proof {
                F::lemma_products_convert();
            }
            let word = words[i];
            let ghost w = ws[i as int];
            assert(word@ == w);
            let ghost before = token_views(self.expression@);
            let v = chars_of(word);
            let t: Token;
            if v.len() == 1 && v[0] == '(' {
                assert(w =~= seq!['(']);
                t = Token::OpenParen;
            } else if v.len() == 1 && v[0] == ')' {
                assert(w =~= seq![')']);
                assert(w != seq!['(']) by {
                    assert(w[0] != seq!['('][0]);
                }
                t = Token::CloseParen;
            } else {
                assert(w != seq!['(']) by {
                    if w.len() == 1 {
                        assert(w[0] != seq!['('][0]);
                    }
                }
                assert(w != seq![')']) by {
                    if w.len() == 1 {
                        assert(w[0] != seq![')'][0]);
                    }
                }
                match self.factory.create_operator_token(word) {
                    Ok(op) => {
                        t = op.into();
                    },
                    Err(_) => {
                        match self.factory.create_number_token(word) {
                            Ok(num) => {
                                t = num.into();
                            },
                            Err(e) => {
                                assert(word_token(f, ws[i as int]) is None);
                                return Err(e);
                            },
                        }
                    },
                }
            }
            assert(word_token(f, w) == Some(t@));
            self.expression.push(t);
            proof {
                let wi = ws.take(i + 1);
                assert(wi.drop_last() =~= ws.take(i as int));
                assert(tokens_of_words(f, wi) =~= tokens_of_words(f, ws.take(i as int)).push(t@));
                assert(token_views(self.expression@) =~= before.push(t@));
                assert forall|j: int| 0 <= j < wi.len() implies (#[trigger] word_token(f, wi[j])) is Some by {
                    if j < i {
                        assert(wi[j] == ws.take(i as int)[j]);
                    }
                }
            }
            i = i + 1;
        }
        assert(ws.take(words.len() as int) =~= ws);
        Ok(copy_tokens(&self.expression))
    }
}

// ------------------------------------------------------------------------
// Laws
// ------------------------------------------------------------------------

/// Operator texts round-trip: the standard factory reads each operator's symbol as that
/// operator, the scientific factory reads each operator's and each function's symbol as
/// that operator or function, and the standard factory reads no function name.
pub proof fn lemma_symbols_read_back(op: Operator, func: Function)
    ensures
        StandardTokenFactory.operator_token(operator_symbol(op)) == Some(TokenView::Operator(op)),
        ScientificFactory.operator_token(operator_symbol(op)) == Some(TokenView::Operator(op)),
        ScientificFactory.operator_token(function_symbol(func)) == Some(
            TokenView::Function(func),
        ),
        StandardTokenFactory.operator_token(function_symbol(func)) is None,
{
}

/// The symbol of an operator token is the text it was made from.
pub proof fn lemma_standard_symbol_is_its_text(s: Seq<char>, t: StandardOperatorToken)
    requires
        StandardTokenFactory.operator_token(s) == Some(
            <StandardOperatorToken as IntoSpec<Token>>::into_spec(t)@,
        ),
    ensures
        operator_symbol(t.operator()) == s,
{
    if s.len() == 1 {
        assert(s =~= seq![s[0]]);
    } else {
        assert(symbol_token(s) is None || symbol_token(s) matches Some(TokenView::Function(_)));
    }
}

/// The symbol of a scientific operator token is the text it was made from.
pub proof fn lemma_scientific_symbol_is_its_text(s: Seq<char>, t: ScientificOperatorToken)
    requires
        ScientificFactory.operator_token(s) == Some(
            <ScientificOperatorToken as IntoSpec<Token>>::into_spec(t)@,
        ),
    ensures
        scientific_symbol(t) == s,
{
    if s.len() == 1 {
        assert(s =~= seq![s[0]]);
    }
}

/// Precedence: addition and subtraction bind loosest, then multiplication and division,
/// then powers, and functions tightest; the scientific mode ranks basic operators as
/// the standard mode does, and writes them with the same symbols.
pub proof fn lemma_precedence_order(op: Operator, func: Function)
    ensures
        operator_precedence(Operator::Add) == operator_precedence(Operator::Subtract),
        operator_precedence(Operator::Multiply) == operator_precedence(Operator::Divide),
        operator_precedence(Operator::Add) < operator_precedence(Operator::Multiply),
        operator_precedence(Operator::Multiply) < operator_precedence(Operator::Power),
        scientific_precedence(ScientificOperatorToken::Basic(op)) == operator_precedence(op),
        scientific_symbol(ScientificOperatorToken::Basic(op)) == operator_symbol(op),
        operator_precedence(op) < scientific_precedence(ScientificOperatorToken::Function(func)),
{
}

/// Both factories accept exactly the float literals as numbers; the standard one keeps
/// them decimal, and the scientific one reads each as `Token::from_str` does.
pub proof fn lemma_factories_agree_on_numbers(s: Seq<char>)
    ensures
        StandardTokenFactory.number_token(s) is Some <==> is_float_literal(s),
        ScientificFactory.number_token(s) is Some <==> is_float_literal(s),
        StandardTokenFactory.number_token(s) matches Some(TokenView::Number(n)) ==> n.kind
            == NumberType::Decimal && n.literal == s,
        is_float_literal(s) ==> ScientificFactory.number_token(s) == token_of_text(s),
{
}

/// Every operator, function and parenthesis the scientific calculator reads is the token
/// `Token::from_str` reads from the same word.
pub proof fn lemma_scientific_words_read_as_tokens(w: Seq<char>)
    ensures
        !is_float_literal(w) && word_token(ScientificFactory, w) is Some ==> word_token(
            ScientificFactory,
            w,
        ) == token_of_text(w),
{
    if w.len() == 1 {
        assert(w =~= seq![w[0]]);
    }
}

/// Reading proceeds word by word: reading `a` and then `b` appends the same tokens as
/// reading `a`, a white-space character and `b` at once, and the joined text is read in
/// full exactly when both parts are.
pub proof fn lemma_read_in_pieces<F: TokenFactory>(f: F, a: Seq<char>, b: Seq<char>, sep: char)
    requires
        has_white_space(sep),
    ensures
        all_words_read(f, whitespace_words(a + seq![sep] + b)) <==> all_words_read(
            f,
            whitespace_words(a),
        ) && all_words_read(f, whitespace_words(b)),
        tokens_of_words(f, whitespace_words(a + seq![sep] + b)) == tokens_of_words(
            f,
            whitespace_words(a),
        ) + tokens_of_words(f, whitespace_words(b)),
{
    lemma_words_of_joined(a, b, sep);
    let wa = whitespace_words(a);
    let wb = whitespace_words(b);
    let w = wa + wb;
    assert(tokens_of_words(f, w) =~= tokens_of_words(f, wa) + tokens_of_words(f, wb));
    if all_words_read(f, w) {
        assert forall|i: int| 0 <= i < wa.len() implies (#[trigger] word_token(f, wa[i])) is Some by {
            assert(w[i] == wa[i]);
        }
        assert forall|i: int| 0 <= i < wb.len() implies (#[trigger] word_token(f, wb[i])) is Some by {
            assert(w[wa.len() + i] == wb[i]);
        }
    }
    if all_words_read(f, wa) && all_words_read(f, wb) {
        assert forall|i: int| 0 <= i < w.len() implies (#[trigger] word_token(f, w[i])) is Some by {
            if i < wa.len() {
                assert(w[i] == wa[i]);
            } else {
                assert(w[i] == wb[i - wa.len()]);
            }
        }
    }
}

/// The scientific factory makes a number from a float literal in scientific notation
/// exactly when the literal has an `e` or an `E`, and in decimal notation otherwise;
/// the standard factory always in decimal notation. Both keep the literal as it is.
pub proof fn lemma_factory_notations(s: Seq<char>)
    requires
        is_float_literal(s),
    ensures
        ScientificFactory.number_token(s) matches Some(TokenView::Number(n)) && n.literal == s && (
        n.kind == NumberType::Scientific <==> has_exponent_marker(s)) && (n.kind
            == NumberType::Decimal <==> !has_exponent_marker(s)),
        StandardTokenFactory.number_token(s) == Some(
            TokenView::Number(NumberView { literal: s, kind: NumberType::Decimal }),
        ),
{
    lemma_number_notation(s);
}

} // verus!
