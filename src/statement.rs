use crate::token::{operator_char, ArithOperator};
use vstd::prelude::*;

verus! {

/// A parsed line. For now every statement is one expression.
pub enum Statement {
    Expression(Expression),
}

/// A chain of sums and differences, leaning left: `left` holds the
/// operator and everything before the last term. `negative` is a leading
/// unary minus on the first term of the chain.
pub struct Expression {
    pub left: Option<(ArithOperator, Box<Expression>)>,
    pub right: Box<Term>,
    pub negative: bool,
}

/// A chain of products and quotients, leaning left.
pub struct Term {
    pub left: Option<(ArithOperator, Box<Term>)>,
    pub right: Box<Factor>,
}

/// A number literal, a bracketed expression, or a power whose exponent is
/// itself a factor.
pub enum Factor {
    Number(Vec<char>),
    Expression(Box<Expression>),
    Power(Box<Factor>, Box<Factor>),
}

/// The mathematical model of an `Expression`.
pub struct ExpressionV {
    pub left: Option<(ArithOperator, Box<ExpressionV>)>,
    pub right: Box<TermV>,
    pub negative: bool,
}

/// The mathematical model of a `Term`.
pub struct TermV {
    pub left: Option<(ArithOperator, Box<TermV>)>,
    pub right: Box<FactorV>,
}

/// The mathematical model of a `Factor`.
pub enum FactorV {
    Number(Seq<char>),
    Expression(Box<ExpressionV>),
    Power(Box<FactorV>, Box<FactorV>),
}

pub open spec fn expression_view(e: Expression) -> ExpressionV
    decreases e,
{
    ExpressionV {
        left: match e.left {
            Some((op, l)) => Some((op, Box::new(expression_view(*l)))),
            None => None,
        },
        right: Box::new(term_view(*e.right)),
        negative: e.negative,
    }
}

pub open spec fn term_view(t: Term) -> TermV
    decreases t,
{
    TermV {
        left: match t.left {
            Some((op, l)) => Some((op, Box::new(term_view(*l)))),
            None => None,
        },
        right: Box::new(factor_view(*t.right)),
    }
}

pub open spec fn factor_view(f: Factor) -> FactorV
    decreases f,
{
    match f {
        Factor::Number(text) => FactorV::Number(text@),
        Factor::Expression(e) => FactorV::Expression(Box::new(expression_view(*e))),
        Factor::Power(b, x) => FactorV::Power(Box::new(factor_view(*b)), Box::new(factor_view(*x))),
    }
}

impl View for Statement {
    type V = ExpressionV;

    open spec fn view(&self) -> ExpressionV {
        match self {
            Statement::Expression(e) => expression_view(*e),
        }
    }
}

/// ` op ` with the operator's character between two spaces.
pub open spec fn spaced(op: ArithOperator) -> Seq<char> {
    seq![' ', operator_char(op), ' ']
}

/// The infix rendering of an expression, every binary operation in
/// brackets: `1+2-3` renders as `((1 + 2) - 3)`.
pub open spec fn render_expression(e: ExpressionV) -> Seq<char>
    decreases e,
{
    match e.left {
        Some((op, l)) => seq!['('] + render_expression(*l) + spaced(op) + render_term(*e.right)
            + seq![')'],
        None => if e.negative {
            seq!['(', '-'] + render_term(*e.right) + seq![')']
        } else {
            render_term(*e.right)
        },
    }
}

pub open spec fn render_term(t: TermV) -> Seq<char>
    decreases t,
{
    match t.left {
        Some((op, l)) => seq!['('] + render_term(*l) + spaced(op) + render_factor(*t.right) + seq![
            ')',
        ],
        None => render_factor(*t.right),
    }
}

pub open spec fn render_factor(f: FactorV) -> Seq<char>
    decreases f,
{
    match f {
        FactorV::Number(text) => text,
        FactorV::Expression(e) => render_expression(*e),
        FactorV::Power(b, x) => seq!['('] + render_factor(*b) + spaced(ArithOperator::Power)
            + render_factor(*x) + seq![')'],
    }
}

fn push_operator(op: ArithOperator, out: &mut Vec<char>)
    ensures
        final(out)@ == old(out)@ + spaced(op),
{
    out.push(' ');
    out.push(op.to_char());
    out.push(' ');
    proof {
        assert(final(out)@ =~= old(out)@ + spaced(op));
    }
}

impl Statement {
    /// The infix rendering of the statement, every binary operation in
    /// brackets.
    pub fn render(&self) -> (r: Vec<char>)
        ensures
            r@ == render_expression(self@),
    {
        let mut out: Vec<char> = Vec::new();
        match self {
            Statement::Expression(e) => e.render_into(&mut out),
        }
        proof {
            assert(out@ =~= seq![] + render_expression(self@));
        }
        out
    }
}

impl Expression {
    /// Appends the rendering of this expression to `out`.
    pub fn render_into(&self, out: &mut Vec<char>)
        ensures
            final(out)@ == old(out)@ + render_expression(expression_view(*self)),
        decreases self,
    {
        let ghost o = out@;
        match &self.left {
            Some((op, l)) => {
                out.push('(');
                l.render_into(out);
                push_operator(*op, out);
                self.right.render_into(out);
                out.push(')');
            },
            None => {
                if self.negative {
                    out.push('(');
                    out.push('-');
                    self.right.render_into(out);
                    out.push(')');
                } else {
                    self.right.render_into(out);
                }
            },
        }
        proof {
            assert(out@ =~= o + render_expression(expression_view(*self)));
        }
    }
}

impl Term {
    /// Appends the rendering of this term to `out`.
    pub fn render_into(&self, out: &mut Vec<char>)
        ensures
            final(out)@ == old(out)@ + render_term(term_view(*self)),
        decreases self,
    {
        let ghost o = out@;
        match &self.left {
            Some((op, l)) => {
                out.push('(');
                l.render_into(out);
                push_operator(*op, out);
                self.right.render_into(out);
                out.push(')');
            },
            None => {
                self.right.render_into(out);
            },
        }
        proof {
            assert(out@ =~= o + render_term(term_view(*self)));
        }
    }
}

impl Factor {
    /// Appends the rendering of this factor to `out`.
    pub fn render_into(&self, out: &mut Vec<char>)
        ensures
            final(out)@ == old(out)@ + render_factor(factor_view(*self)),
        decreases self,
    {
        let ghost o = out@;
        match self {
            Factor::Number(text) => {
                let mut i: usize = 0;
                while i < text.len()
                    invariant
                        i <= text@.len(),
                        out@ == o + text@.subrange(0, i as int),
                    decreases text@.len() - i,
                {
                    out.push(text[i]);
                    i += 1;
                    proof {
                        assert(out@ =~= o + text@.subrange(0, i as int));
                    }
                }
            },
            Factor::Expression(e) => {
                e.render_into(out);
            },
            Factor::Power(b, x) => {
                out.push('(');
                b.render_into(out);
                push_operator(ArithOperator::Power, out);
                x.render_into(out);
                out.push(')');
            },
        }
        proof {
            assert(out@ =~= o + render_factor(factor_view(*self)));
        }
    }
}

} // verus!
