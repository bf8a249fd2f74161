use crate::statement::{
    expression_view, factor_view, term_view, Expression, ExpressionV, Factor, FactorV, Statement,
    Term, TermV,
};
use crate::token::{tokens_view, ArithOperator, Bracket, Token, TokenV};
use crate::text::push_str;
use vstd::prelude::*;

verus! {

/// What the parser looked for where the input did not match.
#[derive(PartialEq, Eq, Structural, Clone, Copy, Debug)]
pub enum Expected {
    /// A closing bracket.
    CloseBracket,
    /// An opening bracket or a number.
    OpenOrNumber,
}

/// A parse error: the tokens that would have been accepted.
#[derive(PartialEq, Eq, Structural, Clone, Copy, Debug)]
pub struct Error {
    pub exp: Expected,
}

pub open spec fn expected_text(exp: Expected) -> Seq<char> {
    match exp {
        Expected::CloseBracket => "\")\""@,
        Expected::OpenOrNumber => "\"(\" or \"Number\""@,
    }
}

/// The message of a parse error: `expect "(" or "Number"`.
pub open spec fn parser_message(e: Error) -> Seq<char> {
    "expect "@ + expected_text(e.exp)
}

impl Error {
    /// The message of this error.
    pub fn message(&self) -> (r: Vec<char>)
        ensures
            r@ == parser_message(*self),
    {
        let mut out: Vec<char> = Vec::new();
        push_str("expect ", &mut out);
        push_str(self.expected_text(), &mut out);
        proof {
            assert(out@ =~= parser_message(*self));
        }
        out
    }

    /// The accepted tokens, each in double quotes, joined by ` or `.
    pub fn expected_text(&self) -> (r: &'static str)
        ensures
            r@ == expected_text(self.exp),
    {
        match self.exp {
            Expected::CloseBracket => "\")\"",
            Expected::OpenOrNumber => "\"(\" or \"Number\"",
        }
    }
}

pub open spec fn fail<T>(exp: Expected) -> Result<T, Error> {
    Err(Error { exp })
}

pub open spec fn is_operator_at(t: Seq<TokenV>, p: int, op: ArithOperator) -> bool {
    0 <= p < t.len() && t[p] == TokenV::ArithOperator(op)
}

/// `Expression := [Sign] Term (('+' | '-') Term)*` from position `p`: the
/// tree and the position after it.
pub open spec fn parse_expression(t: Seq<TokenV>, p: int) -> Result<(ExpressionV, int), Error>
    decreases t.len() - p, 4nat,
{
    let negative = is_operator_at(t, p, ArithOperator::Minus);
    let q = if is_operator_at(t, p, ArithOperator::Plus) || negative {
        p + 1
    } else {
        p
    };
    match parse_term(t, q) {
        Err(e) => Err(e),
        Ok((term, r)) => if r < p || r > t.len() {
            fail(Expected::OpenOrNumber)
        } else {
            parse_expression_rest(
                t,
                r,
                ExpressionV { left: None, right: Box::new(term), negative },
            )
        },
    }
}

/// The `('+' | '-') Term` repetitions from position `p`, folded left onto
/// `acc`.
pub open spec fn parse_expression_rest(t: Seq<TokenV>, p: int, acc: ExpressionV) -> Result<
    (ExpressionV, int),
    Error,
>
    decreases t.len() - p, 3nat,
{
    if is_operator_at(t, p, ArithOperator::Plus) || is_operator_at(t, p, ArithOperator::Minus) {
        let op = if is_operator_at(t, p, ArithOperator::Plus) {
            ArithOperator::Plus
        } else {
            ArithOperator::Minus
        };
        match parse_term(t, p + 1) {
            Err(e) => Err(e),
            Ok((term, r)) => if r <= p || r > t.len() {
                fail(Expected::OpenOrNumber)
            } else {
                parse_expression_rest(
                    t,
                    r,
                    ExpressionV { left: Some((op, Box::new(acc))), right: Box::new(term), negative: false },
                )
            },
        }
    } else {
        Ok((acc, p))
    }
}

/// `Term := Factor (('*' | '/') Factor)*` from position `p`.
pub open spec fn parse_term(t: Seq<TokenV>, p: int) -> Result<(TermV, int), Error>
    decreases t.len() - p, 3nat,
{
    match parse_factor(t, p) {
        Err(e) => Err(e),
        Ok((f, r)) => if r < p || r > t.len() {
            fail(Expected::OpenOrNumber)
        } else {
            parse_term_rest(t, r, TermV { left: None, right: Box::new(f) })
        },
    }
}

/// The `('*' | '/') Factor` repetitions from position `p`, folded left onto
/// `acc`.
pub open spec fn parse_term_rest(t: Seq<TokenV>, p: int, acc: TermV) -> Result<(TermV, int), Error>
    decreases t.len() - p, 2nat,
{
    if is_operator_at(t, p, ArithOperator::Multiply) || is_operator_at(
        t,
        p,
        ArithOperator::Division,
    ) {
        let op = if is_operator_at(t, p, ArithOperator::Multiply) {
            ArithOperator::Multiply
        } else {
            ArithOperator::Division
        };
        match parse_factor(t, p + 1) {
            Err(e) => Err(e),
            Ok((f, r)) => if r <= p || r > t.len() {
                fail(Expected::OpenOrNumber)
            } else {
                parse_term_rest(t, r, TermV { left: Some((op, Box::new(acc))), right: Box::new(f) })
            },
        }
    } else {
        Ok((acc, p))
    }
}

/// `Factor := ('(' Expression ')' | Number) ['^' Factor]` from position `p`.
pub open spec fn parse_factor(t: Seq<TokenV>, p: int) -> Result<(FactorV, int), Error>
    decreases t.len() - p, 1nat,
{
    if p < 0 || p >= t.len() {
        fail(Expected::OpenOrNumber)
    } else {
        let base: Result<(FactorV, int), Error> = match t[p] {
            TokenV::Bracket(Bracket::Left) => match parse_expression(t, p + 1) {
                Err(e) => Err(e),
                Ok((e, r)) => if 0 <= r < t.len() && t[r] == TokenV::Bracket(Bracket::Right) {
                    Ok((FactorV::Expression(Box::new(e)), r + 1))
                } else {
                    fail(Expected::CloseBracket)
                },
            },
            TokenV::Number(text) => Ok((FactorV::Number(text), p + 1)),
            _ => fail(Expected::OpenOrNumber),
        };
        match base {
            Err(e) => Err(e),
            Ok((b, r)) => if r < p {
                fail(Expected::OpenOrNumber)
            } else {
                match parse_factor_prime(t, r) {
                    Err(e) => Err(e),
                    Ok((Some(x), q)) => Ok((FactorV::Power(Box::new(b), Box::new(x)), q)),
                    Ok((None, q)) => Ok((b, q)),
                }
            },
        }
    }
}

/// An optional `'^' Factor` at position `p`: the exponent, if any.
pub open spec fn parse_factor_prime(t: Seq<TokenV>, p: int) -> Result<(Option<FactorV>, int), Error>
    decreases t.len() - p, 0nat,
{
    if is_operator_at(t, p, ArithOperator::Power) {
        match parse_factor(t, p + 1) {
            Err(e) => Err(e),
            Ok((x, q)) => Ok((Some(x), q)),
        }
    } else {
        Ok((None, p))
    }
}

proof fn lemma_expression_progress(t: Seq<TokenV>, p: int)
    requires
        0 <= p <= t.len(),
    ensures
        parse_expression(t, p) matches Ok((_, r)) ==> p < r <= t.len(),
    decreases t.len() - p, 4nat,
{
    let negative = is_operator_at(t, p, ArithOperator::Minus);
    let q = if is_operator_at(t, p, ArithOperator::Plus) || negative {
        p + 1
    } else {
        p
    };
    lemma_term_progress(t, q);
    if let Ok((term, r)) = parse_term(t, q) {
        lemma_expression_rest_progress(
            t,
            r,
            ExpressionV { left: None, right: Box::new(term), negative },
        );
    }
}

proof fn lemma_expression_rest_progress(t: Seq<TokenV>, p: int, acc: ExpressionV)
    requires
        0 <= p <= t.len(),
    ensures
        parse_expression_rest(t, p, acc) matches Ok((_, r)) ==> p <= r <= t.len(),
    decreases t.len() - p, 3nat,
{
    if is_operator_at(t, p, ArithOperator::Plus) || is_operator_at(t, p, ArithOperator::Minus) {
        let op = if is_operator_at(t, p, ArithOperator::Plus) {
            ArithOperator::Plus
        } else {
            ArithOperator::Minus
        };
        lemma_term_progress(t, p + 1);
        if let Ok((term, r)) = parse_term(t, p + 1) {
            lemma_expression_rest_progress(
                t,
                r,
                ExpressionV { left: Some((op, Box::new(acc))), right: Box::new(term), negative: false },
            );
        }
    }
}

proof fn lemma_term_progress(t: Seq<TokenV>, p: int)
    requires
        0 <= p <= t.len(),
    ensures
        parse_term(t, p) matches Ok((_, r)) ==> p < r <= t.len(),
    decreases t.len() - p, 3nat,
{
    lemma_factor_progress(t, p);
    if let Ok((f, r)) = parse_factor(t, p) {
        lemma_term_rest_progress(t, r, TermV { left: None, right: Box::new(f) });
    }
}

proof fn lemma_term_rest_progress(t: Seq<TokenV>, p: int, acc: TermV)
    requires
        0 <= p <= t.len(),
    ensures
        parse_term_rest(t, p, acc) matches Ok((_, r)) ==> p <= r <= t.len(),
    decreases t.len() - p, 2nat,
{
    if is_operator_at(t, p, ArithOperator::Multiply) || is_operator_at(
        t,
        p,
        ArithOperator::Division,
    ) {
        let op = if is_operator_at(t, p, ArithOperator::Multiply) {
            ArithOperator::Multiply
        } else {
            ArithOperator::Division
        };
        lemma_factor_progress(t, p + 1);
        if let Ok((f, r)) = parse_factor(t, p + 1) {
            lemma_term_rest_progress(
                t,
                r,
                TermV { left: Some((op, Box::new(acc))), right: Box::new(f) },
            );
        }
    }
}

proof fn lemma_factor_progress(t: Seq<TokenV>, p: int)
    requires
        0 <= p <= t.len(),
    ensures
        parse_factor(t, p) matches Ok((_, r)) ==> p < r <= t.len(),
    decreases t.len() - p, 1nat,
{
    if p < t.len() {
        if t[p] == TokenV::Bracket(Bracket::Left) {
            lemma_expression_progress(t, p + 1);
            if let Ok((_, r)) = parse_expression(t, p + 1) {
                if r < t.len() {
                    lemma_factor_prime_progress(t, r + 1);
                }
            }
        } else {
            lemma_factor_prime_progress(t, p + 1);
        }
    }
}

proof fn lemma_factor_prime_progress(t: Seq<TokenV>, p: int)
    requires
        0 <= p <= t.len(),
    ensures
        parse_factor_prime(t, p) matches Ok((_, r)) ==> p <= r <= t.len(),
    decreases t.len() - p, 0nat,
{
    if is_operator_at(t, p, ArithOperator::Power) {
        lemma_factor_progress(t, p + 1);
    }
}

/// Every parse that succeeds moves forward and stays within the tokens: a
/// factor, a term or an expression takes at least one token, and the
/// repetitions after them take none or more. So the guards in the parse
/// functions against a position that went back or past the end never apply.
pub proof fn lemma_parse_advances(t: Seq<TokenV>, p: int)
    requires
        0 <= p <= t.len(),
    ensures
        parse_expression(t, p) matches Ok((_, r)) ==> p < r <= t.len(),
        parse_term(t, p) matches Ok((_, r)) ==> p < r <= t.len(),
        parse_factor(t, p) matches Ok((_, r)) ==> p < r <= t.len(),
{
    lemma_expression_progress(t, p);
    lemma_term_progress(t, p);
    lemma_factor_progress(t, p);
}

/// The expression with a unary minus put on its first term.
pub open spec fn negate_first(e: ExpressionV) -> ExpressionV
    decreases e,
{
    match e.left {
        None => ExpressionV { left: None, right: e.right, negative: true },
        Some((op, l)) => ExpressionV {
            left: Some((op, Box::new(negate_first(*l)))),
            right: e.right,
            negative: e.negative,
        },
    }
}

/// The parse result with a unary minus put on the first term of its tree.
pub open spec fn negate_result(r: Result<(ExpressionV, int), Error>) -> Result<
    (ExpressionV, int),
    Error,
> {
    match r {
        Ok((e, q)) => Ok((negate_first(e), q)),
        Err(e) => Err(e),
    }
}

proof fn lemma_rest_negate_first(t: Seq<TokenV>, p: int, acc: ExpressionV)
    requires
        0 <= p <= t.len(),
    ensures
        parse_expression_rest(t, p, negate_first(acc)) == negate_result(
            parse_expression_rest(t, p, acc),
        ),
    decreases t.len() - p,
{
    if is_operator_at(t, p, ArithOperator::Plus) || is_operator_at(t, p, ArithOperator::Minus) {
        let op = if is_operator_at(t, p, ArithOperator::Plus) {
            ArithOperator::Plus
        } else {
            ArithOperator::Minus
        };
        lemma_term_progress(t, p + 1);
        if let Ok((term, r)) = parse_term(t, p + 1) {
            let next = ExpressionV { left: Some((op, Box::new(acc))), right: Box::new(term), negative: false };
            assert(negate_first(next) == ExpressionV {
                left: Some((op, Box::new(negate_first(acc)))),
                right: Box::new(term),
                negative: false,
            });
            lemma_rest_negate_first(t, r, next);
        }
    }
}

/// A sign is read only at the start of an expression. Where the token after
/// it is no sign too, a leading `+` leaves the parse as it is without it,
/// and a leading `-` parses the same but for a minus on the first term.
pub proof fn lemma_leading_sign(t: Seq<TokenV>, p: int)
    requires
        0 <= p < t.len(),
        !is_operator_at(t, p + 1, ArithOperator::Plus),
        !is_operator_at(t, p + 1, ArithOperator::Minus),
    ensures
        is_operator_at(t, p, ArithOperator::Plus) ==> parse_expression(t, p) == parse_expression(
            t,
            p + 1,
        ),
        is_operator_at(t, p, ArithOperator::Minus) ==> parse_expression(t, p) == negate_result(
            parse_expression(t, p + 1),
        ),
{
    lemma_term_progress(t, p + 1);
    if let Ok((term, r)) = parse_term(t, p + 1) {
        let plain = ExpressionV { left: None, right: Box::new(term), negative: false };
        assert(negate_first(plain) == ExpressionV {
            left: None,
            right: Box::new(term),
            negative: true,
        });
        lemma_rest_negate_first(t, r, plain);
    }
}

/// The statement that a whole token sequence parses to. Tokens left over
/// after the expression are not looked at.
pub open spec fn parse(t: Seq<TokenV>) -> Result<ExpressionV, Error> {
    match parse_expression(t, 0) {
        Err(e) => Err(e),
        Ok((e, _)) => Ok(e),
    }
}

/// A recursive-descent parser over a token sequence.
pub struct Parser {
    pub token: Vec<Token>,
    pub index: usize,
}

impl Parser {
    /// Parses a token sequence into a statement.
    pub fn read_line(token: Vec<Token>) -> (r: Result<Statement, Error>)
        ensures
            match r {
                Ok(s) => parse(tokens_view(token@)) == Ok::<ExpressionV, Error>(s@),
                Err(e) => parse(tokens_view(token@)) == Err::<ExpressionV, Error>(e),
            },
    {
        let mut parser = Parser { token, index: 0 };
        parser.test_statement()
    }

    pub open spec fn tokens(&self) -> Seq<TokenV> {
        tokens_view(self.token@)
    }

    /// The error that names what was expected.
    pub fn expected(&self, exp: Expected) -> (r: Error)
        ensures
            r == (Error { exp }),
    {
        Error { exp }
    }

    /// The token under the cursor.
    pub fn look_ahead(&self) -> (r: Option<&Token>)
        ensures
            r == (if self.index < self.token@.len() {
                Some(&self.token@[self.index as int])
            } else {
                None::<&Token>
            }),
    {
        if self.index < self.token.len() {
            Some(&self.token[self.index])
        } else {
            None
        }
    }

    /// Moves the cursor one token on, unless it is at the end.
    pub fn forward(&mut self)
        ensures
            final(self).token == old(self).token,
            final(self).index == (if old(self).index < old(self).token@.len() {
                old(self).index + 1
            } else {
                old(self).index as int
            }),
    {
        if self.index < self.token.len() {
            self.index += 1;
        }
    }

    fn test_statement(&mut self) -> (r: Result<Statement, Error>)
        requires
            old(self).index == 0,
        ensures
            match r {
                Ok(s) => parse(old(self).tokens()) == Ok::<ExpressionV, Error>(s@),
                Err(e) => parse(old(self).tokens()) == Err::<ExpressionV, Error>(e),
            },
    {
        match self.test_expression() {
            Ok(e) => Ok(Statement::Expression(e)),
            Err(e) => Err(e),
        }
    }

    fn test_expression(&mut self) -> (r: Result<Expression, Error>)
        requires
            old(self).index <= old(self).token@.len(),
        ensures
            final(self).token == old(self).token,
            old(self).index <= final(self).index <= final(self).token@.len(),
            match r {
                Ok(e) => parse_expression(old(self).tokens(), old(self).index as int) == Ok::<
                    (ExpressionV, int),
                    Error,
                >((expression_view(e), final(self).index as int)),
                Err(e) => parse_expression(old(self).tokens(), old(self).index as int) == Err::<
                    (ExpressionV, int),
                    Error,
                >(e),
            },
        decreases old(self).token@.len() - old(self).index, 4nat,
    {
        let mut negative = false;
        match self.look_ahead() {
            Some(Token::ArithOperator(op)) => {
                if *op == ArithOperator::Plus {
                    self.forward();
                } else if *op == ArithOperator::Minus {
                    self.forward();
                    negative = true;
                }
            },
            _ => {},
        }
        let term = match self.test_term() {
            Ok(term) => term,
            Err(e) => return Err(e),
        };
        self.test_expression_prime(Expression { left: None, right: Box::new(term), negative })
    }

    fn test_expression_prime(&mut self, acc: Expression) -> (r: Result<Expression, Error>)
        requires
            old(self).index <= old(self).token@.len(),
        ensures
            final(self).token == old(self).token,
            old(self).index <= final(self).index <= final(self).token@.len(),
            match r {
                Ok(e) => parse_expression_rest(
                    old(self).tokens(),
                    old(self).index as int,
                    expression_view(acc),
                ) == Ok::<(ExpressionV, int), Error>((expression_view(e), final(self).index as int)),
                Err(e) => parse_expression_rest(
                    old(self).tokens(),
                    old(self).index as int,
                    expression_view(acc),
                ) == Err::<(ExpressionV, int), Error>(e),
            },
        decreases old(self).token@.len() - old(self).index, 3nat,
    {
        let op = match self.look_ahead() {
            Some(Token::ArithOperator(op)) => *op,
            _ => return Ok(acc),
        };
        if op != ArithOperator::Plus && op != ArithOperator::Minus {
            return Ok(acc);
        }
        self.forward();
        let term = match self.test_term() {
            Ok(term) => term,
            Err(e) => return Err(e),
        };
        self.test_expression_prime(
            Expression { left: Some((op, Box::new(acc))), right: Box::new(term), negative: false },
        )
    }

    fn test_term(&mut self) -> (r: Result<Term, Error>)
        requires
            old(self).index <= old(self).token@.len(),
        ensures
            final(self).token == old(self).token,
            old(self).index <= final(self).index <= final(self).token@.len(),
            match r {
                Ok(t) => parse_term(old(self).tokens(), old(self).index as int) == Ok::<
                    (TermV, int),
                    Error,
                >((term_view(t), final(self).index as int)),
                Err(e) => parse_term(old(self).tokens(), old(self).index as int) == Err::<
                    (TermV, int),
                    Error,
                >(e),
            },
        decreases old(self).token@.len() - old(self).index, 3nat,
    {
        let factor = match self.test_factor() {
            Ok(f) => f,
            Err(e) => return Err(e),
        };
        self.test_term_prime(Term { left: None, right: Box::new(factor) })
    }

    fn test_term_prime(&mut self, acc: Term) -> (r: Result<Term, Error>)
        requires
            old(self).index <= old(self).token@.len(),
        ensures
            final(self).token == old(self).token,
            old(self).index <= final(self).index <= final(self).token@.len(),
            match r {
                Ok(t) => parse_term_rest(old(self).tokens(), old(self).index as int, term_view(acc))
                    == Ok::<(TermV, int), Error>((term_view(t), final(self).index as int)),
                Err(e) => parse_term_rest(
                    old(self).tokens(),
                    old(self).index as int,
                    term_view(acc),
                ) == Err::<(TermV, int), Error>(e),
            },
        decreases old(self).token@.len() - old(self).index, 2nat,
    {
        let op = match self.look_ahead() {
            Some(Token::ArithOperator(op)) => *op,
            _ => return Ok(acc),
        };
        if op != ArithOperator::Multiply && op != ArithOperator::Division {
            return Ok(acc);
        }
        self.forward();
        let factor = match self.test_factor() {
            Ok(f) => f,
            Err(e) => return Err(e),
        };
        self.test_term_prime(Term { left: Some((op, Box::new(acc))), right: Box::new(factor) })
    }

    fn test_factor(&mut self) -> (r: Result<Factor, Error>)
        requires
            old(self).index <= old(self).token@.len(),
        ensures
            final(self).token == old(self).token,
            old(self).index <= final(self).index <= final(self).token@.len(),
            match r {
                Ok(f) => parse_factor(old(self).tokens(), old(self).index as int) == Ok::<
                    (FactorV, int),
                    Error,
                >((factor_view(f), final(self).index as int)),
                Err(e) => parse_factor(old(self).tokens(), old(self).index as int) == Err::<
                    (FactorV, int),
                    Error,
                >(e),
            },
        decreases old(self).token@.len() - old(self).index, 1nat,
    {
        let ghost t = self.tokens();
        let ghost p = self.index as int;
        let left = match self.look_ahead() {
            Some(Token::Bracket(Bracket::Left)) => {
                assert(t[p] == TokenV::Bracket(Bracket::Left));
                self.forward();
                let expr = match self.test_expression() {
                    Ok(e) => e,
                    Err(e) => return Err(e),
                };
                match self.look_ahead() {
                    Some(Token::Bracket(Bracket::Right)) => {},
                    _ => return Err(self.expected(Expected::CloseBracket)),
                }
                self.forward();
                Factor::Expression(Box::new(expr))
            },
            Some(Token::Number(text)) => {
                let copy = copy_text(text);
                assert(t[p] == TokenV::Number(copy@));
                self.forward();
                Factor::Number(copy)
            },
            _ => return Err(self.expected(Expected::OpenOrNumber)),
        };
        assert(parse_factor(t, p) == match parse_factor_prime(t, self.index as int) {
            Err(e) => Err(e),
            Ok((Some(x), q)) => Ok((FactorV::Power(Box::new(factor_view(left)), Box::new(x)), q)),
            Ok((None, q)) => Ok((factor_view(left), q)),
        });
        match self.test_factor_prime() {
            Ok(Some(right)) => Ok(Factor::Power(Box::new(left), Box::new(right))),
            Ok(None) => Ok(left),
            Err(e) => Err(e),
        }
    }

    fn test_factor_prime(&mut self) -> (r: Result<Option<Factor>, Error>)
        requires
            old(self).index <= old(self).token@.len(),
        ensures
            final(self).token == old(self).token,
            old(self).index <= final(self).index <= final(self).token@.len(),
            match r {
                Ok(Some(f)) => parse_factor_prime(old(self).tokens(), old(self).index as int)
                    == Ok::<(Option<FactorV>, int), Error>(
                    (Some(factor_view(f)), final(self).index as int),
                ),
                Ok(None) => parse_factor_prime(old(self).tokens(), old(self).index as int)
                    == Ok::<(Option<FactorV>, int), Error>((None, final(self).index as int)),
                Err(e) => parse_factor_prime(old(self).tokens(), old(self).index as int) == Err::<
                    (Option<FactorV>, int),
                    Error,
                >(e),
            },
        decreases old(self).token@.len() - old(self).index, 0nat,
    {
        match self.look_ahead() {
            Some(Token::ArithOperator(ArithOperator::Power)) => {},
            _ => return Ok(None),
        }
        self.forward();
        match self.test_factor() {
            Ok(f) => Ok(Some(f)),
            Err(e) => Err(e),
        }
    }
}

fn copy_text(text: &Vec<char>) -> (r: Vec<char>)
    ensures
        r@ == text@,
{
    let mut r: Vec<char> = Vec::new();
    let mut i: usize = 0;
    while i < text.len()
        invariant
            i <= text@.len(),
            r@ == text@.subrange(0, i as int),
        decreases text@.len() - i,
    {
        r.push(text[i]);
        i += 1;
    }
    proof {
        assert(r@ =~= text@);
    }
    r
}

} // verus!
