//! Looking at tokens and consuming them; operator precedence.

use vstd::prelude::*;
use crate::ast::{InfixOperator, PrefixOperator};
use crate::error::{Error, ErrorView};
use crate::parser::grammar::{
    expect, infix_operator_for, peek_is, precedence_of, prefix_operator_for, Precedence,
};
use crate::parser::{agrees, Parser};
use crate::token::{Token, TokenType};

verus! {

impl Parser {
    /// The token at the cursor, if there is one.
    pub fn peek_token(&self) -> (token: Option<&Token>)
        requires
            self.well_formed(),
        ensures
            match token {
                Some(t) => self.position() < self.tokens().len() && t@
                    == self.tokens()[self.position()],
                None => self.position() >= self.tokens().len(),
            },
    {
        if self.position < self.tokens.len() {
            Some(&self.tokens[self.position])
        } else {
            None
        }
    }

    /// The token at the cursor, and whether an expression ends here: at a
    /// `;` or at the end of the tokens.
    pub fn peek_token_return_end_status(&self) -> (status: (Option<&Token>, bool))
        requires
            self.well_formed(),
        ensures
            match status.0 {
                Some(t) => self.position() < self.tokens().len() && t@
                    == self.tokens()[self.position()],
                None => self.position() >= self.tokens().len(),
            },
            status.1 == (self.position() >= self.tokens().len() || self.tokens()[self.position()].variant
                == TokenType::SEMICOLON),
    {
        if self.position < self.tokens.len() {
            let peek_token = &self.tokens[self.position];
            let is_semicolon = peek_token.variant == TokenType::SEMICOLON;
            (Some(peek_token), is_semicolon)
        } else {
            (None, true)
        }
    }

    /// Consumes the token at the cursor.
    pub fn next_token(&mut self) -> (result: Result<Token, Error>)
        requires
            old(self).well_formed(),
        ensures
            final(self).well_formed(),
            final(self).tokens() == old(self).tokens(),
            old(self).position() < old(self).tokens().len() ==> result is Ok && result->Ok_0@
                == old(self).tokens()[old(self).position()] && final(self).position() == old(self).position() + 1,
            old(self).position() >= old(self).tokens().len() ==> result is Err && result->Err_0@
                == ErrorView::MissingToken && final(self).position() == old(self).position(),
    {
        if self.position < self.tokens.len() {
            let token = self.tokens[self.position].duplicate();
            self.position = self.position + 1;
            Ok(token)
        } else {
            Err(Error::MissingToken)
        }
    }

    /// Consumes the token at the cursor where it is of the kind expected;
    /// otherwise the cursor stays and the error tells what stands there.
    pub fn expect_next_token(&mut self, expected_token_variant: TokenType) -> (result: Result<
        Token,
        Error,
    >)
        requires
            old(self).well_formed(),
        ensures
            final(self).well_formed(),
            final(self).tokens() == old(self).tokens(),
            agrees(
                result,
                final(self).position(),
                expect(old(self).tokens(), old(self).position(), expected_token_variant),
            ),
            result is Err ==> final(self).position() == old(self).position(),
    {
        if self.position < self.tokens.len() {
            if self.tokens[self.position].variant != expected_token_variant {
                Err(Error::UnexpectedToken(self.tokens[self.position].literal.clone()))
            } else {
                self.next_token()
            }
        } else {
            Err(Error::MissingToken)
        }
    }

    /// Consumes the token at the cursor where it is of the kind expected;
    /// otherwise does nothing.
    pub fn optional_expect_next_token(&mut self, expected_token_variant: TokenType) -> (token:
        Option<Token>)
        requires
            old(self).well_formed(),
        ensures
            final(self).well_formed(),
            final(self).tokens() == old(self).tokens(),
            peek_is(old(self).tokens(), old(self).position(), expected_token_variant) ==> token
                is Some && token->0@ == old(self).tokens()[old(self).position()] && final(self).position() == old(self).position() + 1,
            !peek_is(old(self).tokens(), old(self).position(), expected_token_variant) ==> token
                is None && final(self).position() == old(self).position(),
    {
        match self.expect_next_token(expected_token_variant) {
            Ok(token) => Some(token),
            Err(_) => None,
        }
    }

    /// Whether a token of the given kind stands at the cursor.
    pub fn peek_token_is(&self, kind: TokenType) -> (b: bool)
        requires
            self.well_formed(),
        ensures
            b == peek_is(self.tokens(), self.position(), kind),
    {
        self.position < self.tokens.len() && self.tokens[self.position].variant == kind
    }
}

impl Default for Precedence {
    fn default() -> (level: Self)
        ensures
            level == Precedence::LOWEST,
    {
        Self::LOWEST
    }
}

impl Precedence {
    /// The level at which a token binds when it stands after an expression.
    pub fn get_precedence(token_type: &TokenType) -> (level: Self)
        ensures
            level == precedence_of(*token_type),
    {
        match token_type {
            TokenType::EQUAL => Self::EQUALS,
            TokenType::NOTEQUAL => Self::EQUALS,
            TokenType::LESSTHAN => Self::LESSORGREATER,
            TokenType::GREATERTHAN => Self::LESSORGREATER,
            TokenType::PLUS => Self::SUM,
            TokenType::MINUS => Self::SUM,
            TokenType::SLASH => Self::PRODUCT,
            TokenType::ASTERISK => Self::PRODUCT,
            TokenType::LEFTPAREN => Self::CALL,
            _ => Self::LOWEST,
        }
    }

    /// The level as a number.
    pub fn level(&self) -> (n: u8)
        ensures
            n == self.rank(),
    {
        match self {
            Precedence::LOWEST => 0,
            Precedence::EQUALS => 1,
            Precedence::LESSORGREATER => 2,
            Precedence::SUM => 3,
            Precedence::PRODUCT => 4,
            Precedence::PREFIX => 5,
            Precedence::CALL => 6,
        }
    }

    /// Whether this level binds tighter than `other`.
    pub fn binds_tighter_than(&self, other: &Precedence) -> (b: bool)
        ensures
            b == (self.rank() > other.rank()),
    {
        self.level() > other.level()
    }
}

/// The infix operator that a token of this kind stands for.
pub fn infix_operator_from(kind: TokenType) -> (operator: Option<InfixOperator>)
    ensures
        operator == infix_operator_for(kind),
{
    match kind {
        TokenType::PLUS => Some(InfixOperator::PLUS),
        TokenType::MINUS => Some(InfixOperator::MINUS),
        TokenType::ASTERISK => Some(InfixOperator::MULTIPLY),
        TokenType::SLASH => Some(InfixOperator::DIVIDE),
        TokenType::GREATERTHAN => Some(InfixOperator::GREATERTHAN),
        TokenType::LESSTHAN => Some(InfixOperator::LESSTHAN),
        TokenType::EQUAL => Some(InfixOperator::EQUAL),
        TokenType::NOTEQUAL => Some(InfixOperator::NOTEQUAL),
        _ => None,
    }
}

/// The prefix operator that a token of this kind stands for.
pub fn prefix_operator_from(kind: TokenType) -> (operator: Option<PrefixOperator>)
    ensures
        operator == prefix_operator_for(kind),
{
    match kind {
        TokenType::BANG => Some(PrefixOperator::BANG),
        TokenType::MINUS => Some(PrefixOperator::NEGATE),
        _ => None,
    }
}

} // verus!
