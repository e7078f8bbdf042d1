//! Expressions, by precedence climbing.

use vstd::prelude::*;
use crate::ast::{expressions_view, names_view, Expression, ExpressionView};
use crate::decimal::parse_integer;
use crate::error::Error;
use crate::parser::grammar;
use crate::parser::grammar::{precedence_of, Precedence};
use crate::parser::util::{infix_operator_from, prefix_operator_from};
use crate::parser::{agrees, Parser};
use crate::text::text_equals;
use crate::token::TokenType;

verus! {

impl Parser {
    /// Parses the expression at the cursor whose operators all bind tighter
    /// than `left_precedence`.
    pub fn parse_expression(&mut self, left_precedence: Precedence) -> (result: Result<
        Expression,
        Error,
    >)
        requires
            old(self).well_formed(),
        ensures
            final(self).well_formed(),
            final(self).tokens() == old(self).tokens(),
            agrees(
                result,
                final(self).position(),
                grammar::parse_expression(
                    old(self).tokens(),
                    old(self).position(),
                    left_precedence,
                ),
            ),
            result is Ok ==> old(self).position() < final(self).position(),
        decreases old(self).tokens().len() - old(self).position(), 3nat,
    {
        let ghost ts = self.tokens();
        let ghost start = self.position();
        let mut left_expression = match self.parse_null_definition() {
            Ok(expression) => expression,
            Err(e) => {
                return Err(e);
            },
        };
        while self.infix_follows(left_precedence)
            invariant
                self.well_formed(),
                self.tokens() == ts,
                start < self.position(),
                start == old(self).position(),
                ts == old(self).tokens(),
                grammar::parse_expression(ts, start, left_precedence) == grammar::parse_infix_loop(
                    ts,
                    self.position(),
                    left_expression@,
                    left_precedence,
                ),
            decreases ts.len() - self.position(),
        {
            left_expression = match self.parse_infix_expression(left_expression) {
                Ok(expression) => expression,
                Err(e) => {
                    return Err(e);
                },
            };
        }
        Ok(left_expression)
    }

    /// Whether the token at the cursor goes on with the expression read so
    /// far: it is no `;` and binds tighter than `left_precedence`.
    fn infix_follows(&self, left_precedence: Precedence) -> (b: bool)
        requires
            self.well_formed(),
        ensures
            b == (0 <= self.position() < self.tokens().len() && self.tokens()[self.position()].variant
                != TokenType::SEMICOLON && left_precedence.rank() < precedence_of(
                self.tokens()[self.position()].variant,
            ).rank()),
    {
        let (peek_token, token_at_end) = self.peek_token_return_end_status();
        match peek_token {
            Some(token) => !token_at_end && Precedence::get_precedence(
                &token.variant,
            ).binds_tighter_than(&left_precedence),
            None => false,
        }
    }

    /// Parses a term that needs nothing on its left.
    pub fn parse_null_definition(&mut self) -> (result: Result<Expression, Error>)
        requires
            old(self).well_formed(),
        ensures
            final(self).well_formed(),
            final(self).tokens() == old(self).tokens(),
            agrees(
                result,
                final(self).position(),
                grammar::parse_null_definition(old(self).tokens(), old(self).position()),
            ),
            result is Ok ==> old(self).position() < final(self).position(),
        decreases old(self).tokens().len() - old(self).position(), 2nat,
    {
        if self.position < self.tokens.len() {
            match self.tokens[self.position].variant {
                TokenType::IDENT => self.parse_identifier(),
                TokenType::INT => self.parse_integer_literal(),
                TokenType::BANG => self.parse_prefix_expression(),
                TokenType::MINUS => self.parse_prefix_expression(),
                TokenType::TRUE => self.parse_boolean_expression(),
                TokenType::FALSE => self.parse_boolean_expression(),
                TokenType::LEFTPAREN => self.parse_grouped_expression(),
                TokenType::IF => self.parse_if_expression(),
                TokenType::FUNCTION => self.parse_function_literal_expression(),
                _ => Err(Error::UnexpectedToken(self.tokens[self.position].literal.clone())),
            }
        } else {
            Err(Error::MissingToken)
        }
    }

    /// Parses an identifier.
    pub fn parse_identifier(&mut self) -> (result: Result<Expression, Error>)
        requires
            old(self).well_formed(),
        ensures
            final(self).well_formed(),
            final(self).tokens() == old(self).tokens(),
            agrees(
                result,
                final(self).position(),
                grammar::parse_identifier(old(self).tokens(), old(self).position()),
            ),
            result is Ok ==> old(self).position() < final(self).position(),
    {
        match self.expect_next_token(TokenType::IDENT) {
            Ok(identifier_token) => Ok(Expression::Identifier(identifier_token.literal)),
            Err(e) => Err(e),
        }
    }

    /// Parses an integer literal.
    pub fn parse_integer_literal(&mut self) -> (result: Result<Expression, Error>)
        requires
            old(self).well_formed(),
        ensures
            final(self).well_formed(),
            final(self).tokens() == old(self).tokens(),
            agrees(
                result,
                final(self).position(),
                grammar::parse_integer_literal(old(self).tokens(), old(self).position()),
            ),
            result is Ok ==> old(self).position() < final(self).position(),
    {
        match self.expect_next_token(TokenType::INT) {
            Ok(int_token) => match parse_integer(int_token.literal.as_str()) {
                Some(int_value) => Ok(Expression::IntegerLiteral(int_value)),
                None => Err(Error::InvalidIntegerValue(int_token.literal)),
            },
            Err(e) => Err(e),
        }
    }

    /// Parses a prefix operator and its operand, as in `-5` or `!true`.
    pub fn parse_prefix_expression(&mut self) -> (result: Result<Expression, Error>)
        requires
            old(self).well_formed(),
        ensures
            final(self).well_formed(),
            final(self).tokens() == old(self).tokens(),
            agrees(
                result,
                final(self).position(),
                grammar::parse_prefix_expression(old(self).tokens(), old(self).position()),
            ),
            result is Ok ==> old(self).position() < final(self).position(),
        decreases old(self).tokens().len() - old(self).position(), 1nat,
    {
        let prefix_token = match self.next_token() {
            Ok(token) => token,
            Err(e) => {
                return Err(e);
            },
        };
        let operator = match prefix_operator_from(prefix_token.variant) {
            Some(operator) => operator,
            None => {
                return Err(Error::InvalidPrefixOperator(prefix_token.literal));
            },
        };
        match self.parse_expression(Precedence::PREFIX) {
            Ok(right_expression) => Ok(
                Expression::Prefix { operator, right: Box::new(right_expression) },
            ),
            Err(e) => Err(e),
        }
    }

    /// Joins `left_expression` with the operator at the cursor and its right
    /// operand, as in `5 + 5`, or with the arguments of a call.
    pub fn parse_infix_expression(&mut self, left_expression: Expression) -> (result: Result<
        Expression,
        Error,
    >)
        requires
            old(self).well_formed(),
        ensures
            final(self).well_formed(),
            final(self).tokens() == old(self).tokens(),
            agrees(
                result,
                final(self).position(),
                grammar::parse_infix_expression(
                    old(self).tokens(),
                    old(self).position(),
                    left_expression@,
                ),
            ),
            result is Ok ==> old(self).position() < final(self).position(),
        decreases old(self).tokens().len() - old(self).position(), 0nat,
    {
        let operator_token = match self.next_token() {
            Ok(token) => token,
            Err(e) => {
                return Err(e);
            },
        };
        if operator_token.variant == TokenType::LEFTPAREN {
            return match self.parse_call_arguments() {
                Ok(arguments) => Ok(
                    Expression::FunctionCall { function: Box::new(left_expression), arguments },
                ),
                Err(e) => Err(e),
            };
        }
        let operator = match infix_operator_from(operator_token.variant) {
            Some(operator) => operator,
            None => {
                return Err(Error::InvalidInfixOperator(operator_token.literal));
            },
        };
        let operator_precedence = Precedence::get_precedence(&operator_token.variant);
        match self.parse_expression(operator_precedence) {
            Ok(right_expression) => Ok(
                Expression::Infix {
                    left: Box::new(left_expression),
                    operator,
                    right: Box::new(right_expression),
                },
            ),
            Err(e) => Err(e),
        }
    }

    /// Parses the arguments of a call, after its opening parenthesis.
    pub fn parse_call_arguments(&mut self) -> (result: Result<Vec<Expression>, Error>)
        requires
            old(self).well_formed(),
        ensures
            final(self).well_formed(),
            final(self).tokens() == old(self).tokens(),
            match grammar::parse_call_arguments(old(self).tokens(), old(self).position()) {
                Ok((arguments, end)) => result is Ok && expressions_view(result->Ok_0@)
                    == arguments && final(self).position() == end,
                Err(e) => result is Err && result->Err_0@ == e,
            },
            result is Ok ==> old(self).position() < final(self).position(),
        decreases old(self).tokens().len() - old(self).position(), 5nat,
    {
        let ghost ts = self.tokens();
        let ghost start = self.position();
        let mut arguments: Vec<Expression> = Vec::new();
        assert(expressions_view(arguments@) =~= Seq::<ExpressionView>::empty());
        match self.optional_expect_next_token(TokenType::RIGHTPAREN) {
            Some(_) => {
                return Ok(arguments);
            },
            None => {},
        }
        loop
            invariant
                self.well_formed(),
                self.tokens() == ts,
                start <= self.position(),
                start == old(self).position(),
                ts == old(self).tokens(),
                grammar::parse_call_arguments(ts, start) == grammar::parse_argument_list(
                    ts,
                    self.position(),
                    expressions_view(arguments@),
                ),
            decreases ts.len() - self.position(),
        {
            let ghost before = expressions_view(arguments@);
            let argument = match self.parse_expression(Precedence::LOWEST) {
                Ok(expression) => expression,
                Err(e) => {
                    return Err(e);
                },
            };
            arguments.push(argument);
            assert(expressions_view(arguments@) =~= before.push(argument@));
            match self.optional_expect_next_token(TokenType::COMMA) {
                Some(_) => {},
                None => {
                    return match self.expect_next_token(TokenType::RIGHTPAREN) {
                        Ok(_) => Ok(arguments),
                        Err(e) => Err(e),
                    };
                },
            }
        }
    }

    /// Parses `true` or `false`.
    pub fn parse_boolean_expression(&mut self) -> (result: Result<Expression, Error>)
        requires
            old(self).well_formed(),
        ensures
            final(self).well_formed(),
            final(self).tokens() == old(self).tokens(),
            agrees(
                result,
                final(self).position(),
                grammar::parse_boolean_expression(old(self).tokens(), old(self).position()),
            ),
            result is Ok ==> old(self).position() < final(self).position(),
    {
        let boolean_token = match self.expect_next_token(TokenType::TRUE) {
            Ok(token) => token,
            Err(_) => match self.expect_next_token(TokenType::FALSE) {
                Ok(token) => token,
                Err(e) => {
                    return Err(e);
                },
            },
        };
        if text_equals(boolean_token.literal.as_str(), "true") {
            Ok(Expression::Boolean(true))
        } else if text_equals(boolean_token.literal.as_str(), "false") {
            Ok(Expression::Boolean(false))
        } else {
            Err(Error::InvalidBooleanValue(boolean_token.literal))
        }
    }

    /// Parses an expression in parentheses.
    pub fn parse_grouped_expression(&mut self) -> (result: Result<Expression, Error>)
        requires
            old(self).well_formed(),
        ensures
            final(self).well_formed(),
            final(self).tokens() == old(self).tokens(),
            agrees(
                result,
                final(self).position(),
                grammar::parse_grouped_expression(old(self).tokens(), old(self).position()),
            ),
            result is Ok ==> old(self).position() < final(self).position(),
        decreases old(self).tokens().len() - old(self).position(), 1nat,
    {
        match self.expect_next_token(TokenType::LEFTPAREN) {
            Ok(_) => {},
            Err(e) => {
                return Err(e);
            },
        }
        let grouped_expression = match self.parse_expression(Precedence::LOWEST) {
            Ok(expression) => expression,
            Err(e) => {
                return Err(e);
            },
        };
        match self.expect_next_token(TokenType::RIGHTPAREN) {
            Ok(_) => Ok(grouped_expression),
            Err(e) => Err(e),
        }
    }

    /// Parses an `if` with its condition in parentheses, its block, and the
    /// `else` block where there is one.
    pub fn parse_if_expression(&mut self) -> (result: Result<Expression, Error>)
        requires
            old(self).well_formed(),
        ensures
            final(self).well_formed(),
            final(self).tokens() == old(self).tokens(),
            agrees(
                result,
                final(self).position(),
                grammar::parse_if_expression(old(self).tokens(), old(self).position()),
            ),
            result is Ok ==> old(self).position() < final(self).position(),
        decreases old(self).tokens().len() - old(self).position(), 1nat,
    {
        match self.expect_next_token(TokenType::IF) {
            Ok(_) => {},
            Err(e) => {
                return Err(e);
            },
        }
        match self.expect_next_token(TokenType::LEFTPAREN) {
            Ok(_) => {},
            Err(e) => {
                return Err(e);
            },
        }
        let condition = match self.parse_expression(Precedence::LOWEST) {
            Ok(expression) => Box::new(expression),
            Err(e) => {
                return Err(e);
            },
        };
        match self.expect_next_token(TokenType::RIGHTPAREN) {
            Ok(_) => {},
            Err(e) => {
                return Err(e);
            },
        }
        let consequence = match self.parse_block() {
            Ok(block) => block,
            Err(e) => {
                return Err(e);
            },
        };
        let alternative = match self.optional_expect_next_token(TokenType::ELSE) {
            Some(_) => match self.parse_block() {
                Ok(block) => Some(block),
                Err(e) => {
                    return Err(e);
                },
            },
            None => None,
        };
        Ok(Expression::If { condition, consequence, alternative })
    }

    /// Parses a function literal: `fn`, the parameters in parentheses, and
    /// the body.
    pub fn parse_function_literal_expression(&mut self) -> (result: Result<Expression, Error>)
        requires
            old(self).well_formed(),
        ensures
            final(self).well_formed(),
            final(self).tokens() == old(self).tokens(),
            agrees(
                result,
                final(self).position(),
                grammar::parse_function_literal_expression(
                    old(self).tokens(),
                    old(self).position(),
                ),
            ),
            result is Ok ==> old(self).position() < final(self).position(),
        decreases old(self).tokens().len() - old(self).position(), 1nat,
    {
        match self.expect_next_token(TokenType::FUNCTION) {
            Ok(_) => {},
            Err(e) => {
                return Err(e);
            },
        }
        match self.expect_next_token(TokenType::LEFTPAREN) {
            Ok(_) => {},
            Err(e) => {
                return Err(e);
            },
        }
        let parameters = match self.parse_parameters() {
            Ok(parameters) => parameters,
            Err(e) => {
                return Err(e);
            },
        };
        match self.parse_block() {
            Ok(body) => Ok(Expression::FunctionLiteral { parameters, body }),
            Err(e) => Err(e),
        }
    }

    /// Parses the parameters of a function literal, after its opening
    /// parenthesis.
    pub fn parse_parameters(&mut self) -> (result: Result<Vec<String>, Error>)
        requires
            old(self).well_formed(),
        ensures
            final(self).well_formed(),
            final(self).tokens() == old(self).tokens(),
            match grammar::parse_parameters(old(self).tokens(), old(self).position()) {
                Ok((parameters, end)) => result is Ok && names_view(result->Ok_0@) == parameters
                    && final(self).position() == end,
                Err(e) => result is Err && result->Err_0@ == e,
            },
            result is Ok ==> old(self).position() < final(self).position(),
    {
        let ghost ts = self.tokens();
        let ghost start = self.position();
        let mut parameters: Vec<String> = Vec::new();
        assert(names_view(parameters@) =~= Seq::<Seq<char>>::empty());
        match self.optional_expect_next_token(TokenType::RIGHTPAREN) {
            Some(_) => {
                return Ok(parameters);
            },
            None => {},
        }
        loop
            invariant
                self.well_formed(),
                self.tokens() == ts,
                start <= self.position(),
                start == old(self).position(),
                ts == old(self).tokens(),
                grammar::parse_parameters(ts, start) == grammar::parse_parameter_list(
                    ts,
                    self.position(),
                    names_view(parameters@),
                ),
            decreases ts.len() - self.position(),
        {
            let ghost before = names_view(parameters@);
            let name = match self.expect_next_token(TokenType::IDENT) {
                Ok(token) => token.literal,
                Err(e) => {
                    return Err(e);
                },
            };
            let ghost name_view = name@;
            parameters.push(name);
            assert(names_view(parameters@) =~= before.push(name_view));
            match self.optional_expect_next_token(TokenType::COMMA) {
                Some(_) => {},
                None => {
                    return match self.expect_next_token(TokenType::RIGHTPAREN) {
                        Ok(_) => Ok(parameters),
                        Err(e) => Err(e),
                    };
                },
            }
        }
    }
}

} // verus!
