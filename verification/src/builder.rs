use vstd::prelude::*;
use crate::lexical::{is_digits, is_float_literal, lemma_point_decimal};
use crate::token::{Function, Operator, Token, TokenView, NumberView, NumberType};

verus! {

/// How a token changes the depth of parenthesis nesting.
pub open spec fn paren_step(t: TokenView) -> int {
    match t {
        TokenView::OpenParen => 1,
        TokenView::CloseParen => -1,
        _ => 0,
    }
}

/// The nesting depth after the tokens `s`: opened minus closed parentheses.
pub open spec fn paren_depth(s: Seq<TokenView>) -> int
    decreases s.len(),
{
    if s.len() == 0 {
        0
    } else {
        paren_depth(s.drop_last()) + paren_step(s.last())
    }
}

/// No prefix of `s` closes more parentheses than it opens.
pub open spec fn never_overclosed(s: Seq<TokenView>) -> bool {
    forall|i: int| 0 <= i <= s.len() ==> paren_depth(#[trigger] s.take(i)) >= 0
}

/// Every parenthesis of `s` is matched.
pub open spec fn balanced_parens(s: Seq<TokenView>) -> bool {
    never_overclosed(s) && paren_depth(s) == 0
}

/// No operator of `s` is directly followed by another.
pub open spec fn no_adjacent_operators(s: Seq<TokenView>) -> bool {
    forall|i: int, j: int|
        #![trigger s[i], s[j]]
        0 <= i && j == i + 1 && j < s.len() ==> !(s[i] is Operator && s[j] is Operator)
}

/// What every built expression satisfies.
pub open spec fn well_formed_expression(s: Seq<TokenView>) -> bool {
    &&& s.len() > 0
    &&& balanced_parens(s)
    &&& no_adjacent_operators(s)
}

pub open spec fn token_views(v: Seq<Token>) -> Seq<TokenView> {
    v.map_values(|t: Token| t@)
}

/// A number token in decimal notation.
pub open spec fn decimal_number(literal: Seq<char>) -> TokenView {
    TokenView::Number(NumberView { literal: literal, kind: NumberType::Decimal })
}

proof fn lemma_depth_push(s: Seq<TokenView>, t: TokenView)
    ensures
        paren_depth(s.push(t)) == paren_depth(s) + paren_step(t),
        s.push(t).drop_last() == s,
{
    assert(s.push(t).drop_last() =~= s);
}

/// Extending a never-overclosed sequence by a token that leaves the depth non-negative
/// keeps it never overclosed.
proof fn lemma_never_overclosed_push(s: Seq<TokenView>, t: TokenView)
    requires
        never_overclosed(s),
        paren_depth(s) + paren_step(t) >= 0,
    ensures
        never_overclosed(s.push(t)),
{
    let s2 = s.push(t);
    lemma_depth_push(s, t);
    assert forall|i: int| 0 <= i <= s2.len() implies paren_depth(#[trigger] s2.take(i)) >= 0 by {
        if i <= s.len() {
            assert(s2.take(i) =~= s.take(i));
        } else {
            assert(s2.take(i) =~= s2);
        }
    }
}

proof fn lemma_never_overclosed_depth(s: Seq<TokenView>)
    requires
        never_overclosed(s),
    ensures
        paren_depth(s) >= 0,
{
    assert(s.take(s.len() as int) =~= s);
}

/// No well-formed expression, and so no built one, has an operator directly followed by
/// another, whichever the two operators are.
pub proof fn lemma_no_operator_follows_an_operator(s: Seq<TokenView>, i: int)
    requires
        well_formed_expression(s),
        0 <= i,
        i + 1 < s.len(),
    ensures
        !(s[i] is Operator && s[i + 1] is Operator),
{
    assert(!(s[i] is Operator && s[i + 1] is Operator));
}

/// A finished sequence of tokens.
#[derive(Debug, Clone)]
pub struct Expression {
    tokens: Vec<Token>,
}

impl Expression {
    pub closed spec fn token_views(&self) -> Seq<TokenView> {
        token_views(self.tokens@)
    }

    /// The tokens, in order.
    pub fn tokens(&self) -> (r: &Vec<Token>)
        ensures
            token_views(r@) == self.token_views(),
    {
        &self.tokens
    }

    /// Number of tokens.
    pub fn len(&self) -> (r: usize)
        ensures
            r == self.token_views().len(),
    {
        self.tokens.len()
    }
}

/// Builds an expression token by token, keeping count of open parentheses.
pub struct ExpressionBuilder {
    tokens: Vec<Token>,
    paren_count: i32,
}

impl ExpressionBuilder {
    #[verifier::type_invariant]
    spec fn inv(self) -> bool {
        &&& self.paren_count == paren_depth(token_views(self.tokens@))
        &&& never_overclosed(token_views(self.tokens@))
    }

    pub closed spec fn token_views(&self) -> Seq<TokenView> {
        token_views(self.tokens@)
    }

    /// Parentheses opened and not yet closed.
    pub closed spec fn depth(&self) -> int {
        self.paren_count as int
    }

    /// Parentheses opened and not yet closed. The count is the nesting depth of the
    /// tokens, and no prefix of them closed more groups than it opened.
    pub fn open_groups(&self) -> (r: i32)
        ensures
            r == self.depth(),
            r >= 0,
            r == paren_depth(self.token_views()),
            never_overclosed(self.token_views()),
    {
        proof {
            use_type_invariant(self);
            lemma_never_overclosed_depth(self.token_views());
        }
        self.paren_count
    }

    pub fn new() -> (r: Self)
        ensures
            r.token_views() == Seq::<TokenView>::empty(),
            r.depth() == 0,
    {
        let r = ExpressionBuilder { tokens: Vec::new(), paren_count: 0 };
        assert(token_views(r.tokens@) =~= Seq::<TokenView>::empty());
        r
    }

    /// Appends a token that does not change the nesting depth.
    fn push_plain(self, t: Token) -> (r: Self)
        requires
            paren_step(t@) == 0,
        ensures
            r.token_views() == self.token_views().push(t@),
            r.depth() == self.depth(),
    {
        proof {
            use_type_invariant(&self);
        }
        let ExpressionBuilder { mut tokens, paren_count } = self;
        let ghost before = token_views(tokens@);
        tokens.push(t);
        proof {
            assert(token_views(tokens@) =~= before.push(t@));
            lemma_depth_push(before, t@);
            lemma_never_overclosed_depth(before);
            lemma_never_overclosed_push(before, t@);
        }
        ExpressionBuilder { tokens, paren_count }
    }

    /// Appends a number in decimal notation.
    pub fn number(self, literal: &str) -> (r: Self)
        requires
            is_float_literal(literal@),
        ensures
            r.token_views() == self.token_views().push(decimal_number(literal@)),
            r.depth() == self.depth(),
    {
        self.push_plain(Token::number(literal))
    }

    pub fn operator(self, op: Operator) -> (r: Self)
        ensures
            r.token_views() == self.token_views().push(TokenView::Operator(op)),
            r.depth() == self.depth(),
    {
        self.push_plain(Token::operator(op))
    }

    pub fn variable(self, name: &str) -> (r: Self)
        ensures
            r.token_views() == self.token_views().push(TokenView::Variable(name@)),
            r.depth() == self.depth(),
    {
        self.push_plain(Token::variable(name))
    }

    fn function(self, func: Function) -> (r: Self)
        ensures
            r.token_views() == self.token_views().push(TokenView::Function(func)),
            r.depth() == self.depth(),
    {
        self.push_plain(Token::function(func))
    }

    /// Opens a parenthesis group.
    pub fn open_paren(self) -> (r: Self)
        requires
            self.depth() < i32::MAX,
        ensures
            r.token_views() == self.token_views().push(TokenView::OpenParen),
            r.depth() == self.depth() + 1,
    {
        proof {
            use_type_invariant(&self);
        }
        let ExpressionBuilder { mut tokens, paren_count } = self;
        let ghost before = token_views(tokens@);
        tokens.push(Token::OpenParen);
        proof {
            assert(token_views(tokens@) =~= before.push(TokenView::OpenParen));
            lemma_depth_push(before, TokenView::OpenParen);
            lemma_never_overclosed_depth(before);
            lemma_never_overclosed_push(before, TokenView::OpenParen);
        }
        ExpressionBuilder { tokens, paren_count: paren_count + 1 }
    }

    /// Closes the innermost open parenthesis group; an error where none is open.
    pub fn close_paren(self) -> (r: Result<Self, String>)
        ensures
            match r {
                Ok(b) => {
                    &&& self.depth() > 0
                    &&& b.token_views() == self.token_views().push(TokenView::CloseParen)
                    &&& b.depth() == self.depth() - 1
                },
                Err(e) => self.depth() <= 0 && e@ == "Unmatched closing parenthesis"@,
            },
    {
        proof {
            use_type_invariant(&self);
        }
        if self.paren_count <= 0 {
            return Err(String::from_str("Unmatched closing parenthesis"));
        }
        let ExpressionBuilder { mut tokens, paren_count } = self;
        let ghost before = token_views(tokens@);
        tokens.push(Token::CloseParen);
        proof {
            assert(token_views(tokens@) =~= before.push(TokenView::CloseParen));
            lemma_depth_push(before, TokenView::CloseParen);
            lemma_never_overclosed_push(before, TokenView::CloseParen);
        }
        Ok(ExpressionBuilder { tokens, paren_count: paren_count - 1 })
    }

    /// Finishes the expression: an error where a parenthesis is left open, where there are
    /// no tokens, or where two operators follow each other.
    pub fn build(self) -> (r: Result<Expression, String>)
        ensures
            match r {
                Ok(e) => {
                    &&& self.depth() == 0
                    &&& self.token_views().len() > 0
                    &&& no_adjacent_operators(self.token_views())
                    &&& e.token_views() == self.token_views()
                    &&& well_formed_expression(e.token_views())
                },
                Err(msg) => {
                    ||| self.depth() != 0 && msg@ == "Unmatched parentheses"@
                    ||| self.depth() == 0 && self.token_views().len() == 0 && msg@
                        == "Empty expression"@
                    ||| self.depth() == 0 && self.token_views().len() > 0 && !no_adjacent_operators(
                        self.token_views(),
                    ) && msg@ == "Consecutive operators not allowed"@
                },
            },
    {
        if self.open_groups() != 0 {
            return Err(String::from_str("Unmatched parentheses"));
        }
        if self.tokens.len() == 0 {
            return Err(String::from_str("Empty expression"));
        }
        match self.validate_expression() {
            Ok(()) => {},
            Err(msg) => {
                return Err(msg);
            },
        }
        let ExpressionBuilder { tokens, paren_count: _ } = self;
        Ok(Expression { tokens })
    }

    /// Checks that there is a token and that no two operators follow each other.
    fn validate_expression(&self) -> (r: Result<(), String>)
        ensures
            match r {
                Ok(()) => self.token_views().len() > 0 && no_adjacent_operators(self.token_views()),
                Err(msg) => {
                    ||| self.token_views().len() == 0 && msg@ == "Expression cannot be empty"@
                    ||| self.token_views().len() > 0 && !no_adjacent_operators(self.token_views())
                        && msg@ == "Consecutive operators not allowed"@
                },
            },
    {
        if self.tokens.len() == 0 {
            return Err(String::from_str("Expression cannot be empty"));
        }
        let ghost s = self.token_views();
        let mut prev_is_op = false;
        let mut i: usize = 0;
        while i < self.tokens.len()
            invariant
                s == token_views(self.tokens@),
                i <= self.tokens.len(),
                prev_is_op <==> (i > 0 && s[i - 1] is Operator),
                forall|a: int, b: int|
                    #![trigger s[a], s[b]]
                    0 <= a && b == a + 1 && b < i ==> !(s[a] is Operator && s[b] is Operator),
            decreases self.tokens.len() - i,
        {
            let is_op = match &self.tokens[i] {
                Token::Operator(_) => true,
                _ => false,
            };
            assert(s[i as int] == self.tokens@[i as int]@);
            if is_op {
                if prev_is_op {
                    assert(s[i - 1] is Operator && s[i as int] is Operator);
                    return Err(String::from_str("Consecutive operators not allowed"));
                }
            }
            prev_is_op = is_op;
            i = i + 1;
        }
        Ok(())
    }

    /// Appends `left op right`.
    pub fn binary_op(self, left: &str, op: Operator, right: &str) -> (r: Self)
        requires
            is_float_literal(left@),
            is_float_literal(right@),
        ensures
            r.token_views() == self.token_views().push(decimal_number(left@)).push(
                TokenView::Operator(op),
            ).push(decimal_number(right@)),
            r.depth() == self.depth(),
    {
        self.number(left).operator(op).number(right)
    }

    /// Appends the application of `func` to the variable `arg`: `func ( arg )`.
    pub fn function_call(self, func: Function, arg: &str) -> (r: Self)
        requires
            self.depth() < i32::MAX,
        ensures
            r.token_views() == self.token_views().push(TokenView::Function(func)).push(
                TokenView::OpenParen,
            ).push(TokenView::Variable(arg@)).push(TokenView::CloseParen),
            r.depth() == self.depth(),
    {
        proof {
            use_type_invariant(&self);
            lemma_never_overclosed_depth(self.token_views());
        }
        self.function(func).open_paren().variable(arg).close_paren().unwrap()
    }
}

impl Default for ExpressionBuilder {
    fn default() -> (r: Self)
        ensures
            r.token_views() == Seq::<TokenView>::empty(),
            r.depth() == 0,
    {
        ExpressionBuilder::new()
    }
}

impl Expression {
    /// The template `1.0 * x ^ 2.0 + 0.0 * x + 0.0`, left open for further tokens.
    pub fn quadratic() -> (r: ExpressionBuilder)
        ensures
            r.token_views() == seq![
                decimal_number("1.0"@),
                TokenView::Operator(Operator::Multiply),
                TokenView::Variable("x"@),
                TokenView::Operator(Operator::Power),
                decimal_number("2.0"@),
                TokenView::Operator(Operator::Add),
                decimal_number("0.0"@),
                TokenView::Operator(Operator::Multiply),
                TokenView::Variable("x"@),
                TokenView::Operator(Operator::Add),
                decimal_number("0.0"@),
            ],
            r.depth() == 0,
    {
        proof {
            reveal_strlit("1.0");
            reveal_strlit("2.0");
            reveal_strlit("0.0");
            assert("1.0"@ =~= seq!['1'] + seq!['.'] + seq!['0']);
            assert("2.0"@ =~= seq!['2'] + seq!['.'] + seq!['0']);
            assert("0.0"@ =~= seq!['0'] + seq!['.'] + seq!['0']);
            assert(is_digits(seq!['0']) && is_digits(seq!['1']) && is_digits(seq!['2']));
            lemma_point_decimal(seq!['1'], seq!['0']);
            lemma_point_decimal(seq!['2'], seq!['0']);
            lemma_point_decimal(seq!['0'], seq!['0']);
        }
        ExpressionBuilder::new()
            .number("1.0")
            .operator(Operator::Multiply)
            .variable("x")
            .operator(Operator::Power)
            .number("2.0")
            .operator(Operator::Add)
            .number("0.0")
            .operator(Operator::Multiply)
            .variable("x")
            .operator(Operator::Add)
            .number("0.0")
    }
}

} // verus!
