//! Statements and blocks.

use vstd::prelude::*;
use crate::ast::{Block, Statement, StatementView};
use crate::error::Error;
use crate::parser::grammar;
use crate::parser::grammar::Precedence;
use crate::parser::{agrees, Parser};
use crate::token::TokenType;

verus! {

impl Parser {
    /// Parses the statement at the cursor: `let`, `return`, or an expression.
    pub fn parse_statement(&mut self) -> (result: Result<Statement, Error>)
        requires
            old(self).well_formed(),
        ensures
            final(self).well_formed(),
            final(self).tokens() == old(self).tokens(),
            agrees(
                result,
                final(self).position(),
                grammar::parse_statement(old(self).tokens(), old(self).position()),
            ),
            result is Ok ==> old(self).position() < final(self).position(),
        decreases old(self).tokens().len() - old(self).position(), 6nat,
    {
        if self.position < self.tokens.len() {
            match self.tokens[self.position].variant {
                TokenType::LET => self.parse_let_statement(),
                TokenType::RETURN => self.parse_return_statement(),
                _ => self.parse_expression_statement(),
            }
        } else {
            Err(Error::MissingToken)
        }
    }

    /// Parses `let <identifier> = <expression>;`.
    pub fn parse_let_statement(&mut self) -> (result: Result<Statement, Error>)
        requires
            old(self).well_formed(),
        ensures
            final(self).well_formed(),
            final(self).tokens() == old(self).tokens(),
            agrees(
                result,
                final(self).position(),
                grammar::parse_let_statement(old(self).tokens(), old(self).position()),
            ),
            result is Ok ==> old(self).position() < final(self).position(),
        decreases old(self).tokens().len() - old(self).position(), 5nat,
    {
        match self.expect_next_token(TokenType::LET) {
            Ok(_) => {},
            Err(e) => {
                return Err(e);
            },
        }
        let identifier_token = match self.expect_next_token(TokenType::IDENT) {
            Ok(token) => token,
            Err(e) => {
                return Err(e);
            },
        };
        match self.expect_next_token(TokenType::ASSIGN) {
            Ok(_) => {},
            Err(e) => {
                return Err(e);
            },
        }
        let expression = match self.parse_expression(Precedence::LOWEST) {
            Ok(expression) => expression,
            Err(e) => {
                return Err(e);
            },
        };
        match self.expect_next_token(TokenType::SEMICOLON) {
            Ok(_) => {},
            Err(e) => {
                return Err(e);
            },
        }
        Ok(Statement::Let { identifier: identifier_token.literal, value: expression })
    }

    /// Parses `return <expression>;`.
    pub fn parse_return_statement(&mut self) -> (result: Result<Statement, Error>)
        requires
            old(self).well_formed(),
        ensures
            final(self).well_formed(),
            final(self).tokens() == old(self).tokens(),
            agrees(
                result,
                final(self).position(),
                grammar::parse_return_statement(old(self).tokens(), old(self).position()),
            ),
            result is Ok ==> old(self).position() < final(self).position(),
        decreases old(self).tokens().len() - old(self).position(), 5nat,
    {
        match self.expect_next_token(TokenType::RETURN) {
            Ok(_) => {},
            Err(e) => {
                return Err(e);
            },
        }
        let expression = match self.parse_expression(Precedence::LOWEST) {
            Ok(expression) => expression,
            Err(e) => {
                return Err(e);
            },
        };
        match self.expect_next_token(TokenType::SEMICOLON) {
            Ok(_) => {},
            Err(e) => {
                return Err(e);
            },
        }
        Ok(Statement::Return { return_value: expression })
    }

    /// Parses an expression and the `;` after it, where there is one.
    pub fn parse_expression_statement(&mut self) -> (result: Result<Statement, Error>)
        requires
            old(self).well_formed(),
        ensures
            final(self).well_formed(),
            final(self).tokens() == old(self).tokens(),
            agrees(
                result,
                final(self).position(),
                grammar::parse_expression_statement(old(self).tokens(), old(self).position()),
            ),
            result is Ok ==> old(self).position() < final(self).position(),
        decreases old(self).tokens().len() - old(self).position(), 5nat,
    {
        let expression = match self.parse_expression(Precedence::LOWEST) {
            Ok(expression) => expression,
            Err(e) => {
                return Err(e);
            },
        };
        let _ = self.optional_expect_next_token(TokenType::SEMICOLON);
        Ok(Statement::Expression(expression))
    }

    /// Parses `{ a; b; c; }`, where `a`, `b` and `c` are statements.
    pub fn parse_block(&mut self) -> (result: Result<Block, Error>)
        requires
            old(self).well_formed(),
        ensures
            final(self).well_formed(),
            final(self).tokens() == old(self).tokens(),
            agrees(
                result,
                final(self).position(),
                grammar::parse_block(old(self).tokens(), old(self).position()),
            ),
            result is Ok ==> old(self).position() < final(self).position(),
        decreases old(self).tokens().len() - old(self).position(), 8nat,
    {
        let ghost ts = self.tokens();
        let ghost start = self.position();
        match self.expect_next_token(TokenType::LEFTBRACE) {
            Ok(_) => {},
            Err(e) => {
                return Err(e);
            },
        }
        let mut block = Block { statements: Vec::new() };
        assert(block@ =~= Seq::<StatementView>::empty());
        while !self.peek_token_is(TokenType::RIGHTBRACE)
            invariant
                self.well_formed(),
                self.tokens() == ts,
                start < self.position(),
                start == old(self).position(),
                ts == old(self).tokens(),
                grammar::parse_block(ts, start) == grammar::parse_block_statements(
                    ts,
                    self.position(),
                    block@,
                ),
            decreases ts.len() - self.position(),
        {
            let ghost before = block@;
            match self.parse_statement() {
                Ok(statement) => {
                    block.statements.push(statement);
                    assert(block@ =~= before.push(statement@));
                },
                Err(e) => {
                    return Err(e);
                },
            }
        }
        assert(self.position < self.tokens.len());
        self.position = self.position + 1;
        Ok(block)
    }
}

} // verus!
