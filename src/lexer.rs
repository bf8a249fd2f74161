use crate::token::{
    bracket_of, is_bracket_char, is_operator_char, operator_of, tokens_view, ArithOperator,
    Bracket, Token, TokenV,
};
use crate::text::{decimal, push_decimal, push_str};
use vstd::prelude::*;
use vstd::string::StrSliceExecFns;

verus! {

/// A cursor over the characters of one input line.
pub struct Lexer {
    pub index: usize,
    pub forward: usize,
    pub source: Vec<char>,
}

/// A 0-based column in the input line.
#[derive(PartialEq, Eq, Structural, Clone, Copy, Debug)]
pub struct Pos {
    pub column: usize,
}

/// Why a line was rejected.
#[derive(PartialEq, Eq, Structural, Clone, Copy, Debug)]
pub enum Reason {
    UnexpectedCharacter,
    NumberStartWithZero,
    NumberEndWithNonNumeric,
    NumberRepeatPoint,
}

/// A lexical error: the reason, the column and the character found there.
#[derive(PartialEq, Eq, Structural, Clone, Copy, Debug)]
pub struct Error {
    pub reason: Reason,
    pub location: Pos,
    pub character: char,
}

impl Reason {
    /// The wording of the reason.
    pub fn text(&self) -> (r: &'static str)
        ensures
            r@ == reason_text(*self),
    {
        match self {
            Reason::UnexpectedCharacter => "unexpected character",
            Reason::NumberStartWithZero => "non-decimal start with zero",
            Reason::NumberEndWithNonNumeric => "number end with non-numeric",
            Reason::NumberRepeatPoint => "repeat point in number",
        }
    }
}

/// The message of a lexical error, its column counted from 1:
/// ``column 2: unexpected character `&` ``.
pub open spec fn lexer_message(e: Error) -> Seq<char> {
    "column "@ + decimal((e.location.column + 1) as nat) + ": "@ + reason_text(e.reason) + " `"@ + seq![
        e.character,
    ] + "`"@
}

impl Error {
    /// The message of this error.
    pub fn message(&self) -> (r: Vec<char>)
        ensures
            r@ == lexer_message(*self),
    {
        let mut out: Vec<char> = Vec::new();
        push_str("column ", &mut out);
        push_decimal(self.location.column as u128 + 1, &mut out);
        push_str(": ", &mut out);
        push_str(self.reason.text(), &mut out);
        push_str(" `", &mut out);
        out.push(self.character);
        push_str("`", &mut out);
        proof {
            assert(out@ =~= lexer_message(*self));
        }
        out
    }
}

pub open spec fn reason_text(r: Reason) -> Seq<char> {
    match r {
        Reason::UnexpectedCharacter => "unexpected character"@,
        Reason::NumberStartWithZero => "non-decimal start with zero"@,
        Reason::NumberEndWithNonNumeric => "number end with non-numeric"@,
        Reason::NumberRepeatPoint => "repeat point in number"@,
    }
}

/// ASCII whitespace, skipped between tokens.
pub open spec fn is_whitespace(c: char) -> bool {
    c == ' ' || c == '\t' || c == '\n' || c == '\x0C' || c == '\r'
}

pub open spec fn is_digit(c: char) -> bool {
    '0' <= c && c <= '9'
}

/// A character that ends a number literal without being part of it.
pub open spec fn ends_number(c: char) -> bool {
    is_operator_char(c) || c == ')' || c == ' '
}

pub open spec fn error_at(s: Seq<char>, reason: Reason, column: int) -> Error {
    Error { reason, location: Pos { column: column as usize }, character: s[column] }
}

/// Scans a number literal from column `j` on, `point` telling whether a
/// decimal point was already seen: the column where it ends and whether it
/// holds a point, or the error met on the way.
pub open spec fn scan_number(s: Seq<char>, j: int, point: bool) -> Result<(int, bool), Error>
    decreases s.len() - j,
{
    if j < 0 || j >= s.len() || ends_number(s[j]) {
        Ok((j, point))
    } else if is_digit(s[j]) {
        scan_number(s, j + 1, point)
    } else if s[j] == '.' {
        if point {
            Err(error_at(s, Reason::NumberRepeatPoint, j))
        } else {
            scan_number(s, j + 1, true)
        }
    } else {
        Err(error_at(s, Reason::UnexpectedCharacter, j))
    }
}

/// The end of the number literal whose first digit stands at column `i`.
pub open spec fn number_end(s: Seq<char>, i: int) -> Result<int, Error> {
    match scan_number(s, i + 1, false) {
        Err(e) => Err(e),
        Ok((end, point)) => if s[end - 1] == '.' {
            Err(error_at(s, Reason::NumberEndWithNonNumeric, end - 1))
        } else if !point && s[i] == '0' && end - i > 1 {
            Err(error_at(s, Reason::NumberStartWithZero, i))
        } else {
            Ok(end)
        },
    }
}

pub open spec fn push_front(t: TokenV, r: Result<Seq<TokenV>, Error>) -> Result<Seq<TokenV>, Error> {
    match r {
        Ok(ts) => Ok(seq![t] + ts),
        Err(e) => Err(e),
    }
}

pub open spec fn prepend_all(p: Seq<TokenV>, r: Result<Seq<TokenV>, Error>) -> Result<Seq<TokenV>, Error> {
    match r {
        Ok(ts) => Ok(p + ts),
        Err(e) => Err(e),
    }
}

/// The tokens of `s` from column `i` on, or the first error.
pub open spec fn lex_from(s: Seq<char>, i: int) -> Result<Seq<TokenV>, Error>
    decreases s.len() - i,
    via lex_from_decreases
{
    if i < 0 || i >= s.len() {
        Ok(seq![])
    } else if is_whitespace(s[i]) {
        lex_from(s, i + 1)
    } else if is_bracket_char(s[i]) {
        push_front(TokenV::Bracket(bracket_of(s[i])), lex_from(s, i + 1))
    } else if is_operator_char(s[i]) {
        push_front(TokenV::ArithOperator(operator_of(s[i])), lex_from(s, i + 1))
    } else if is_digit(s[i]) {
        match number_end(s, i) {
            Ok(end) => push_front(TokenV::Number(s.subrange(i, end)), lex_from(s, end)),
            Err(e) => Err(e),
        }
    } else {
        Err(error_at(s, Reason::UnexpectedCharacter, i))
    }
}

proof fn lemma_scan_number_bounds(s: Seq<char>, j: int, point: bool)
    requires
        0 <= j <= s.len(),
    ensures
        scan_number(s, j, point) matches Ok((end, _)) ==> j <= end <= s.len() && (end < s.len()
            ==> ends_number(s[end])),
    decreases s.len() - j,
{
    if j < s.len() && !ends_number(s[j]) {
        lemma_scan_number_bounds(s, j + 1, point);
        lemma_scan_number_bounds(s, j + 1, true);
    }
}

#[via_fn]
proof fn lex_from_decreases(s: Seq<char>, i: int) {
    if 0 <= i < s.len() {
        lemma_scan_number_bounds(s, i + 1, false);
    }
}

/// The tokens of a whole line, or the first error.
pub open spec fn lex(s: Seq<char>) -> Result<Seq<TokenV>, Error> {
    lex_from(s, 0)
}

impl Lexer {
    /// Splits `input` into tokens.
    pub fn read_line(input: &str) -> (r: Result<Vec<Token>, Error>)
        ensures
            match r {
                Ok(v) => lex(input@) == Ok::<Seq<TokenV>, Error>(tokens_view(v@)),
                Err(e) => lex(input@) == Err::<Seq<TokenV>, Error>(e),
            },
    {
        let mut lexer = Self::from_line(input);
        lexer.token()
    }

    /// A lexer at the start of `input`.
    pub fn from_line(input: &str) -> (r: Self)
        ensures
            r.source@ == input@,
            r.index == 0,
            r.forward == 0,
    {
        let n = input.unicode_len();
        let mut source: Vec<char> = Vec::new();
        let mut i: usize = 0;
        while i < n
            invariant
                n == input@.len(),
                i <= n,
                source@ == input@.subrange(0, i as int),
            decreases n - i,
        {
            source.push(input.get_char(i));
            i += 1;
        }
        proof {
            assert(source@ =~= input@);
        }
        Lexer { index: 0, forward: 0, source }
    }

    /// The character at column `i`, if there is one.
    pub fn get_char(&self, i: usize) -> (r: Option<char>)
        ensures
            r == (if i < self.source@.len() {
                Some(self.source@[i as int])
            } else {
                None::<char>
            }),
    {
        if i < self.source.len() {
            Some(self.source[i])
        } else {
            None
        }
    }

    /// Takes the character under the cursor, moving the cursor and the
    /// look-ahead past it.
    pub fn next_char(&mut self) -> (r: Option<char>)
        ensures
            final(self).source == old(self).source,
            old(self).index < old(self).source@.len() ==> r == Some(old(self).source@[old(
                self,
            ).index as int]) && final(self).index == old(self).index + 1 && final(self).forward
                == final(self).index,
            old(self).index >= old(self).source@.len() ==> r is None && final(self).index == old(
                self,
            ).index,
    {
        if self.index < self.source.len() {
            self.index += 1;
            self.forward = self.index;
            self.get_char(self.index - 1)
        } else {
            None
        }
    }

    /// The character that was taken last.
    pub fn current_char(&self) -> (r: char)
        requires
            1 <= self.index <= self.source@.len(),
        ensures
            r == self.source@[self.index - 1],
    {
        self.source[self.index - 1]
    }

    /// Takes the character under the look-ahead cursor without moving the
    /// main cursor.
    pub fn forward_char(&mut self) -> (r: Option<char>)
        ensures
            final(self).source == old(self).source,
            final(self).index == old(self).index,
            old(self).forward < old(self).source@.len() ==> r == Some(old(self).source@[old(
                self,
            ).forward as int]) && final(self).forward == old(self).forward + 1,
            old(self).forward >= old(self).source@.len() ==> r is None && final(self).forward
                == old(self).forward,
    {
        if self.forward < self.source.len() {
            self.forward += 1;
            self.get_char(self.forward - 1)
        } else {
            None
        }
    }

    /// The error for `reason` at `column`.
    pub fn error_at(&self, reason: Reason, column: usize) -> (r: Error)
        requires
            column < self.source@.len(),
        ensures
            r == error_at(self.source@, reason, column as int),
    {
        Error { reason, location: Pos { column }, character: self.source[column] }
    }
    /// Turns the rest of the line into tokens.
    fn token(&mut self) -> (r: Result<Vec<Token>, Error>)
        requires
            old(self).index == 0,
        ensures
            match r {
                Ok(v) => lex(old(self).source@) == Ok::<Seq<TokenV>, Error>(tokens_view(v@)),
                Err(e) => lex(old(self).source@) == Err::<Seq<TokenV>, Error>(e),
            },
    {
        let ghost s = self.source@;
        let mut result: Vec<Token> = Vec::new();
        loop
            invariant
                s == old(self).source@,
                self.source@ == s,
                self.index <= s.len(),
                lex(s) == prepend_all(tokens_view(result@), lex_from(s, self.index as int)),
            decreases s.len() - self.index,
        {
            let ghost i = self.index as int;
            let ch = match self.next_char() {
                Some(ch) => ch,
                None => {
                    proof {
                        assert(lex_from(s, i) == Ok::<Seq<TokenV>, Error>(seq![]));
                        assert(tokens_view(result@) + seq![] =~= tokens_view(result@));
                    }
                    return Ok(result);
                },
            };
            if ch == ' ' || ch == '\t' || ch == '\n' || ch == '\x0C' || ch == '\r' {
                continue;
            }
            let t = if ch == '(' || ch == ')' {
                Token::Bracket(Bracket::from_char(ch))
            } else if ch == '+' || ch == '-' || ch == '*' || ch == '/' || ch == '^' {
                Token::ArithOperator(ArithOperator::from_char(ch))
            } else if '0' <= ch && ch <= '9' {
                proof {
                    lemma_scan_number_bounds(s, i + 1, false);
                }
                match self.test_number() {
                    Ok(t) => t,
                    Err(e) => return Err(e),
                }
            } else {
                return Err(self.error_at(Reason::UnexpectedCharacter, self.index - 1));
            };
            let ghost before = result@;
            result.push(t);
            proof {
                assert(tokens_view(result@) =~= tokens_view(before).push(t@));
                match lex_from(s, self.index as int) {
                    Ok(ts) => {
                        assert(tokens_view(before) + (seq![t@] + ts) =~= tokens_view(result@) + ts);
                    },
                    Err(_) => {},
                }
            }
        }
    }

    /// Reads the number literal whose first digit was taken last, and moves
    /// the cursor past it.
    fn test_number(&mut self) -> (r: Result<Token, Error>)
        requires
            1 <= old(self).index <= old(self).source@.len(),
            old(self).forward == old(self).index,
            is_digit(old(self).source@[old(self).index - 1]),
        ensures
            final(self).source@ == old(self).source@,
            match r {
                Ok(t) => final(self).index <= final(self).source@.len() && number_end(old(self).source@, old(self).index - 1) == Ok::<int, Error>(
                    final(self).index as int,
                ) && t@ == TokenV::Number(
                    old(self).source@.subrange(old(self).index - 1, final(self).index as int),
                ),
                Err(e) => number_end(old(self).source@, old(self).index - 1) == Err::<int, Error>(
                    e,
                ),
            },
    {
        let ghost s = self.source@;
        let start = self.index - 1;
        let mut number: Vec<char> = Vec::new();
        number.push(self.current_char());
        let mut point = false;
        let mut end: usize = self.index;
        loop
            invariant_except_break
                s == old(self).source@,
                start + 1 == old(self).index,
                self.source@ == s,
                self.index == start + 1,
                self.forward == end,
                start + 1 <= end <= s.len(),
                number@ == s.subrange(start as int, end as int),
                scan_number(s, start + 1, false) == scan_number(s, end as int, point),
            ensures
                s == old(self).source@,
                start + 1 == old(self).index,
                self.source@ == s,
                self.index == start + 1,
                start + 1 <= end <= s.len(),
                number@ == s.subrange(start as int, end as int),
                scan_number(s, start + 1, false) == Ok::<(int, bool), Error>((end as int, point)),
            decreases s.len() - end,
        {
            let ch = match self.forward_char() {
                Some(ch) => ch,
                None => break,
            };
            if ch == '+' || ch == '-' || ch == '*' || ch == '/' || ch == '^' || ch == ')' || ch == ' ' {
                break;
            } else if '0' <= ch && ch <= '9' {
                number.push(ch);
            } else if ch == '.' {
                if point {
                    return Err(self.error_at(Reason::NumberRepeatPoint, end));
                }
                number.push(ch);
                point = true;
            } else {
                return Err(self.error_at(Reason::UnexpectedCharacter, end));
            }
            proof {
                assert(number@ =~= s.subrange(start as int, end + 1));
            }
            end += 1;
        }
        let last = number[number.len() - 1];
        if last == '.' {
            return Err(self.error_at(Reason::NumberEndWithNonNumeric, end - 1));
        }
        if !point && number[0] == '0' && number.len() > 1 {
            return Err(self.error_at(Reason::NumberStartWithZero, start));
        }
        self.index = end;
        Ok(Token::Number(number))
    }
}

} // verus!
