use vstd::prelude::*;

verus! {

/// A round bracket.
#[derive(PartialEq, Eq, Structural, Clone, Copy, Debug)]
pub enum Bracket {
    Left,
    Right,
}

/// One of the five binary arithmetic operators.
#[derive(PartialEq, Eq, Structural, Clone, Copy, Debug)]
pub enum ArithOperator {
    Plus,
    Minus,
    Multiply,
    Division,
    Power,
}

/// A lexical unit. A number keeps the text of its literal, digits and at
/// most one decimal point; turning it into a value is left to the caller.
#[derive(Debug)]
pub enum Token {
    Bracket(Bracket),
    ArithOperator(ArithOperator),
    Number(Vec<char>),
}

/// The mathematical model of a token.
pub enum TokenV {
    Bracket(Bracket),
    ArithOperator(ArithOperator),
    Number(Seq<char>),
}

impl View for Token {
    type V = TokenV;

    open spec fn view(&self) -> TokenV {
        match self {
            Token::Bracket(b) => TokenV::Bracket(*b),
            Token::ArithOperator(op) => TokenV::ArithOperator(*op),
            Token::Number(text) => TokenV::Number(text@),
        }
    }
}

/// The models of a sequence of tokens.
pub open spec fn tokens_view(v: Seq<Token>) -> Seq<TokenV> {
    v.map_values(|t: Token| t@)
}

pub open spec fn is_bracket_char(c: char) -> bool {
    c == '(' || c == ')'
}

pub open spec fn bracket_of(c: char) -> Bracket {
    if c == '(' {
        Bracket::Left
    } else {
        Bracket::Right
    }
}

pub open spec fn bracket_char(b: Bracket) -> char {
    match b {
        Bracket::Left => '(',
        Bracket::Right => ')',
    }
}

pub open spec fn is_operator_char(c: char) -> bool {
    c == '+' || c == '-' || c == '*' || c == '/' || c == '^'
}

pub open spec fn operator_of(c: char) -> ArithOperator {
    if c == '+' {
        ArithOperator::Plus
    } else if c == '-' {
        ArithOperator::Minus
    } else if c == '*' {
        ArithOperator::Multiply
    } else if c == '/' {
        ArithOperator::Division
    } else {
        ArithOperator::Power
    }
}

pub open spec fn operator_char(op: ArithOperator) -> char {
    match op {
        ArithOperator::Plus => '+',
        ArithOperator::Minus => '-',
        ArithOperator::Multiply => '*',
        ArithOperator::Division => '/',
        ArithOperator::Power => '^',
    }
}

impl Bracket {
    /// The bracket written as `c`.
    pub fn from_char(c: char) -> (r: Bracket)
        requires
            is_bracket_char(c),
        ensures
            r == bracket_of(c),
            bracket_char(r) == c,
    {
        if c == '(' {
            Bracket::Left
        } else {
            Bracket::Right
        }
    }

    /// The character that writes this bracket.
    pub fn to_char(&self) -> (r: char)
        ensures
            r == bracket_char(*self),
            bracket_of(r) == *self,
    {
        match self {
            Bracket::Left => '(',
            Bracket::Right => ')',
        }
    }
}

impl ArithOperator {
    /// The operator written as `c`.
    pub fn from_char(c: char) -> (r: ArithOperator)
        requires
            is_operator_char(c),
        ensures
            r == operator_of(c),
            operator_char(r) == c,
    {
        if c == '+' {
            ArithOperator::Plus
        } else if c == '-' {
            ArithOperator::Minus
        } else if c == '*' {
            ArithOperator::Multiply
        } else if c == '/' {
            ArithOperator::Division
        } else {
            ArithOperator::Power
        }
    }

    /// The character that writes this operator.
    pub fn to_char(&self) -> (r: char)
        ensures
            r == operator_char(*self),
            operator_of(r) == *self,
    {
        match self {
            ArithOperator::Plus => '+',
            ArithOperator::Minus => '-',
            ArithOperator::Multiply => '*',
            ArithOperator::Division => '/',
            ArithOperator::Power => '^',
        }
    }
}

} // verus!
