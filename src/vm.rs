use crate::lexer::{self, lex, lexer_message, Lexer};
use crate::text::push_str;
use crate::parser::{self, parse, parser_message, Parser};
use crate::statement::{ExpressionV, Statement};
use vstd::prelude::*;
use vstd::string::StringExecFns;

verus! {

/// A calculator session: the debug flag and the lines accepted so far.
pub struct VM {
    debug: bool,
    history: Vec<String>,
}

/// Why a line was not accepted: the stage that failed and its error.
#[derive(PartialEq, Eq, Structural, Clone, Copy, Debug)]
pub enum Error {
    Lexer(lexer::Error),
    Parser(parser::Error),
}

/// The message of an error, as the stage that failed words it.
pub open spec fn error_message(e: Error) -> Seq<char> {
    match e {
        Error::Lexer(e) => lexer_message(e),
        Error::Parser(e) => parser_message(e),
    }
}

/// The message of an error, led by the stage that failed.
pub open spec fn error_detail(e: Error) -> Seq<char> {
    match e {
        Error::Lexer(e) => "lex error: "@ + lexer_message(e),
        Error::Parser(e) => "parse error "@ + parser_message(e),
    }
}

impl Error {
    /// The message of this error.
    pub fn message(&self) -> (r: Vec<char>)
        ensures
            r@ == error_message(*self),
    {
        match self {
            Error::Lexer(e) => e.message(),
            Error::Parser(e) => e.message(),
        }
    }

    /// The message of this error, led by the stage that failed.
    pub fn detail(&self) -> (r: Vec<char>)
        ensures
            r@ == error_detail(*self),
    {
        let mut out: Vec<char> = Vec::new();
        let inner = match self {
            Error::Lexer(e) => {
                push_str("lex error: ", &mut out);
                e.message()
            },
            Error::Parser(e) => {
                push_str("parse error ", &mut out);
                e.message()
            },
        };
        let ghost head = out@;
        let mut i: usize = 0;
        while i < inner.len()
            invariant
                i <= inner@.len(),
                out@ == head + inner@.subrange(0, i as int),
            decreases inner@.len() - i,
        {
            out.push(inner[i]);
            i += 1;
            proof {
                assert(out@ =~= head + inner@.subrange(0, i as int));
            }
        }
        proof {
            assert(inner@.subrange(0, inner@.len() as int) =~= inner@);
        }
        out
    }
}

/// What one line comes to: the expression it parses to, or the error of the
/// first stage that fails.
pub open spec fn outcome(line: Seq<char>) -> Result<ExpressionV, Error> {
    match lex(line) {
        Err(e) => Err(Error::Lexer(e)),
        Ok(tokens) => match parse(tokens) {
            Err(e) => Err(Error::Parser(e)),
            Ok(x) => Ok(x),
        },
    }
}

/// One line run through a session whose history is `history`: the history
/// afterwards and what the line comes to.
pub open spec fn session_step(history: Seq<Seq<char>>, line: Seq<char>) -> (
    Seq<Seq<char>>,
    Result<ExpressionV, Error>,
) {
    let r = outcome(line);
    (if r is Ok {
        history.push(line)
    } else {
        history
    }, r)
}

/// Running the same line a second time gives the same outcome as the first
/// time, although the first run may have grown the history.
pub proof fn lemma_same_line_same_outcome(history: Seq<Seq<char>>, line: Seq<char>)
    ensures
        session_step(session_step(history, line).0, line).1 == session_step(history, line).1,
{
}

impl VM {
    pub closed spec fn debug_view(&self) -> bool {
        self.debug
    }

    /// The accepted lines, oldest first.
    pub closed spec fn history_view(&self) -> Seq<Seq<char>> {
        self.history@.map_values(|s: String| s@)
    }

    /// A session with an empty history.
    pub fn new(debug: bool) -> (r: Self)
        ensures
            r.debug_view() == debug,
            r.history_view() == Seq::<Seq<char>>::empty(),
    {
        let r = Self { debug, history: Vec::new() };
        proof {
            assert(r.history_view() =~= Seq::<Seq<char>>::empty());
        }
        r
    }

    /// Turns the debug rendering on or off.
    pub fn set_debug(&mut self, debug: bool)
        ensures
            final(self).debug_view() == debug,
            final(self).history_view() == old(self).history_view(),
    {
        self.debug = debug;
    }

    /// Whether the debug rendering is on.
    pub fn debug(&self) -> (r: bool)
        ensures
            r == self.debug_view(),
    {
        self.debug
    }

    /// The number of accepted lines.
    pub fn history_len(&self) -> (r: usize)
        ensures
            r == self.history_view().len(),
    {
        self.history.len()
    }

    /// The accepted line at position `i`, oldest first.
    pub fn history_line(&self, i: usize) -> (r: &str)
        requires
            i < self.history_view().len(),
        ensures
            r@ == self.history_view()[i as int],
    {
        self.history[i].as_str()
    }

    /// Lexes and parses one line. The result depends on the line alone; on
    /// success the line is added to the history.
    pub fn exec_line(&mut self, line: &str) -> (r: Result<Statement, Error>)
        ensures
            match r {
                Ok(s) => outcome(line@) == Ok::<ExpressionV, Error>(s@),
                Err(e) => outcome(line@) == Err::<ExpressionV, Error>(e),
            },
            final(self).debug_view() == old(self).debug_view(),
            final(self).history_view() == session_step(old(self).history_view(), line@).0,
    {
        let tokens = match Lexer::read_line(line) {
            Ok(tokens) => tokens,
            Err(e) => return Err(Error::Lexer(e)),
        };
        let stmt = match Parser::read_line(tokens) {
            Ok(stmt) => stmt,
            Err(e) => return Err(Error::Parser(e)),
        };
        let ghost before = self.history_view();
        self.history.push(String::from_str(line));
        proof {
            assert(self.history_view() =~= before.push(line@));
        }
        Ok(stmt)
    }
}

} // verus!
