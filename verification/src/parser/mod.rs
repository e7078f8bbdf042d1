//! The parser: tokens in, abstract syntax tree out.
//!
//! What the parser gives is stated by the functions of [`grammar`]; each
//! method here reads exactly what the function of the same name reads.

pub mod expression;
pub mod grammar;
pub mod precedence;
pub mod spans;
pub mod statement;
pub mod util;

use vstd::prelude::*;
use crate::ast::Program;
use crate::error::Error;
use crate::lexer::{read_all_tokens, tokenize_spec, Lexer};
use crate::parser::grammar::{parse_program_spec, parse_program_statements, Parsed};
use crate::token::{token_views, Token, TokenView};

verus! {

/// A cursor over the tokens of a source text.
pub struct Parser {
    pub(crate) tokens: Vec<Token>,
    pub(crate) position: usize,
}

/// Whether `result`, with the parser left at `next`, is what the grammar
/// gives.
pub open spec fn agrees<T: View>(result: Result<T, Error>, next: int, expected: Parsed<T::V>) -> bool {
    match expected {
        Ok((value, end)) => result is Ok && result->Ok_0@ == value && next == end,
        Err(e) => result is Err && result->Err_0@ == e,
    }
}

impl Parser {
    /// All the tokens of the source text.
    pub open(crate) spec fn tokens(&self) -> Seq<TokenView> {
        token_views(self.tokens@)
    }

    /// The number of tokens consumed so far.
    pub open(crate) spec fn position(&self) -> int {
        self.position as int
    }

    /// The cursor lies within the tokens.
    pub open(crate) spec fn well_formed(&self) -> bool {
        self.position <= self.tokens@.len()
    }

    /// A parser over the tokens that `lexer` has yet to give.
    pub fn new(lexer: Lexer) -> (parser: Self)
        requires
            lexer.well_formed(),
        ensures
            parser.well_formed(),
            parser.position() == 0,
            parser.tokens() == tokenize_spec(lexer.remaining()),
    {
        let mut lexer = lexer;
        let tokens = read_all_tokens(&mut lexer);
        Self { tokens, position: 0 }
    }

    /// Parses the statements from the cursor to the end of the tokens. The
    /// first error ends the parse.
    pub fn parse_program(&mut self) -> (result: Result<Program, Error>)
        requires
            old(self).well_formed(),
        ensures
            final(self).well_formed(),
            final(self).tokens() == old(self).tokens(),
            match parse_program_statements(
                old(self).tokens(),
                old(self).position(),
                Seq::empty(),
            ) {
                Ok(statements) => result is Ok && result->Ok_0@ == statements && final(self).position() == old(self).tokens().len(),
                Err(e) => result is Err && result->Err_0@ == e,
            },
    {
        let ghost ts = self.tokens();
        let ghost start = self.position();
        let mut program = Program::new();
        while self.position < self.tokens.len()
            invariant
                self.well_formed(),
                self.tokens() == ts,
                ts == old(self).tokens(),
                start == old(self).position(),
                parse_program_statements(ts, start, Seq::empty()) == parse_program_statements(
                    ts,
                    self.position(),
                    program@,
                ),
            decreases ts.len() - self.position(),
        {
            let ghost before = program@;
            match self.parse_statement() {
                Ok(statement) => {
                    program.statements.push(statement);
                    assert(program@ =~= before.push(statement@));
                },
                Err(e) => {
                    return Err(e);
                },
            }
        }
        Ok(program)
    }
}

/// Parses a source text.
pub fn parse(source: &str) -> (result: Result<Program, Error>)
    ensures
        match parse_program_spec(tokenize_spec(source@)) {
            Ok(statements) => result is Ok && result->Ok_0@ == statements,
            Err(e) => result is Err && result->Err_0@ == e,
        },
{
    let lexer = Lexer::new(source.chars());
    let mut parser = Parser::new(lexer);
    parser.parse_program()
}

} // verus!
