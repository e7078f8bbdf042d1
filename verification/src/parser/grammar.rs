//! The grammar, as functions on sequences of tokens.
//!
//! Each function reads one construct that starts at position `pos` of the
//! tokens `ts`, and gives what it read together with the position after it,
//! or the first error met. The parser is proved to compute exactly these
//! functions.
//!
//! Expressions are read by precedence climbing: a term that needs nothing on
//! its left is read first, and is then joined with every infix operator that
//! binds tighter than the level asked for. The right operand of an operator is
//! read at that operator's own level, which makes operators of one level group
//! to the left.

use vstd::prelude::*;
use crate::ast::{ExpressionView, InfixOperator, PrefixOperator, StatementView};
use crate::decimal::integer_value;
use crate::error::ErrorView;
use crate::token::{TokenType, TokenView};

verus! {

/// What reading a construct gives: the construct and the position after it.
pub type Parsed<T> = Result<(T, int), ErrorView>;

/// How tightly an operator binds; later variants bind tighter.
#[derive(PartialEq, PartialOrd, Eq, Structural, Debug, Clone, Copy)]
pub enum Precedence {
    LOWEST,
    EQUALS,
    LESSORGREATER,
    SUM,
    PRODUCT,
    PREFIX,
    CALL,
}

impl Precedence {
    /// The level as a number: `LOWEST` is 0 and `CALL` is 6.
    pub open spec fn rank(self) -> nat {
        match self {
            Precedence::LOWEST => 0,
            Precedence::EQUALS => 1,
            Precedence::LESSORGREATER => 2,
            Precedence::SUM => 3,
            Precedence::PRODUCT => 4,
            Precedence::PREFIX => 5,
            Precedence::CALL => 6,
        }
    }
}

/// The level at which a token binds when it stands after an expression.
pub open spec fn precedence_of(kind: TokenType) -> Precedence {
    match kind {
        TokenType::EQUAL => Precedence::EQUALS,
        TokenType::NOTEQUAL => Precedence::EQUALS,
        TokenType::LESSTHAN => Precedence::LESSORGREATER,
        TokenType::GREATERTHAN => Precedence::LESSORGREATER,
        TokenType::PLUS => Precedence::SUM,
        TokenType::MINUS => Precedence::SUM,
        TokenType::SLASH => Precedence::PRODUCT,
        TokenType::ASTERISK => Precedence::PRODUCT,
        TokenType::LEFTPAREN => Precedence::CALL,
        _ => Precedence::LOWEST,
    }
}

/// The infix operator that a token of this kind stands for.
pub open spec fn infix_operator_for(kind: TokenType) -> Option<InfixOperator> {
    match kind {
        TokenType::PLUS => Some(InfixOperator::PLUS),
        TokenType::MINUS => Some(InfixOperator::MINUS),
        TokenType::ASTERISK => Some(InfixOperator::MULTIPLY),
        TokenType::SLASH => Some(InfixOperator::DIVIDE),
        TokenType::GREATERTHAN => Some(InfixOperator::GREATERTHAN),
        TokenType::LESSTHAN => Some(InfixOperator::LESSTHAN),
        TokenType::EQUAL => Some(InfixOperator::EQUAL),
        TokenType::NOTEQUAL => Some(InfixOperator::NOTEQUAL),
        _ => None,
    }
}

/// The prefix operator that a token of this kind stands for.
pub open spec fn prefix_operator_for(kind: TokenType) -> Option<PrefixOperator> {
    match kind {
        TokenType::BANG => Some(PrefixOperator::BANG),
        TokenType::MINUS => Some(PrefixOperator::NEGATE),
        _ => None,
    }
}

/// Whether a token of kind `kind` stands at `pos`.
pub open spec fn peek_is(ts: Seq<TokenView>, pos: int, kind: TokenType) -> bool {
    0 <= pos < ts.len() && ts[pos].variant == kind
}

/// Reads the token at `pos`, which must be of kind `kind`.
pub open spec fn expect(ts: Seq<TokenView>, pos: int, kind: TokenType) -> Parsed<TokenView> {
    if 0 <= pos < ts.len() {
        if ts[pos].variant == kind {
            Ok((ts[pos], pos + 1))
        } else {
            Err(ErrorView::UnexpectedToken(ts[pos].literal))
        }
    } else {
        Err(ErrorView::MissingToken)
    }
}

/// Passes on a result that ends after `pos` and within the tokens. Every
/// construct of the grammar spans at least one token, so the other branch is
/// never taken; it is what lets the grammar be defined by recursion on the
/// number of tokens left.
pub open spec fn progress<T>(r: Parsed<T>, pos: int, len: nat) -> Parsed<T> {
    match r {
        Ok((_, next)) => if pos < next <= len {
            r
        } else {
            Err(ErrorView::MissingToken)
        },
        Err(_) => r,
    }
}

/// `IDENT (, IDENT)* )`: the parameters that follow those in `acc`.
pub open spec fn parse_parameter_list(ts: Seq<TokenView>, pos: int, acc: Seq<Seq<char>>) -> Parsed<
    Seq<Seq<char>>,
>
    decreases ts.len() - pos,
{
    match expect(ts, pos, TokenType::IDENT) {
        Err(e) => Err(e),
        Ok((name, after_name)) => if peek_is(ts, after_name, TokenType::COMMA) {
            parse_parameter_list(ts, after_name + 1, acc.push(name.literal))
        } else {
            match expect(ts, after_name, TokenType::RIGHTPAREN) {
                Err(e) => Err(e),
                Ok((_, end)) => Ok((acc.push(name.literal), end)),
            }
        },
    }
}

/// `(IDENT (, IDENT)*)? )`: the parameters of a function literal, after its
/// opening parenthesis.
pub open spec fn parse_parameters(ts: Seq<TokenView>, pos: int) -> Parsed<Seq<Seq<char>>> {
    if peek_is(ts, pos, TokenType::RIGHTPAREN) {
        Ok((Seq::empty(), pos + 1))
    } else {
        parse_parameter_list(ts, pos, Seq::empty())
    }
}

/// An expression whose operators all bind tighter than `level`.
pub open spec fn parse_expression(ts: Seq<TokenView>, pos: int, level: Precedence) -> Parsed<
    ExpressionView,
>
    decreases ts.len() - pos, 3nat,
{
    match progress(parse_null_definition(ts, pos), pos, ts.len()) {
        Err(e) => Err(e),
        Ok((left, next)) => parse_infix_loop(ts, next, left, level),
    }
}

/// Joins `left` with the infix operators and calls that follow it, as long as
/// they bind tighter than `level` and no `;` or end of input is met.
pub open spec fn parse_infix_loop(
    ts: Seq<TokenView>,
    pos: int,
    left: ExpressionView,
    level: Precedence,
) -> Parsed<ExpressionView>
    decreases ts.len() - pos, 1nat,
{
    if 0 <= pos < ts.len() && ts[pos].variant != TokenType::SEMICOLON && level.rank()
        < precedence_of(ts[pos].variant).rank() {
        match progress(parse_infix_expression(ts, pos, left), pos, ts.len()) {
            Err(e) => Err(e),
            Ok((joined, next)) => parse_infix_loop(ts, next, joined, level),
        }
    } else {
        Ok((left, pos))
    }
}

/// `left` joined with the operator at `pos` and its right operand, or with
/// the arguments of a call where a `(` stands at `pos`.
pub open spec fn parse_infix_expression(ts: Seq<TokenView>, pos: int, left: ExpressionView) -> Parsed<
    ExpressionView,
>
    decreases ts.len() - pos, 0nat,
{
    if 0 <= pos < ts.len() {
        let operator_token = ts[pos];
        if operator_token.variant == TokenType::LEFTPAREN {
            match parse_call_arguments(ts, pos + 1) {
                Err(e) => Err(e),
                Ok((arguments, next)) => Ok(
                    (ExpressionView::FunctionCall { function: Box::new(left), arguments }, next),
                ),
            }
        } else {
            match infix_operator_for(operator_token.variant) {
                None => Err(ErrorView::InvalidInfixOperator(operator_token.literal)),
                Some(operator) => match parse_expression(
                    ts,
                    pos + 1,
                    precedence_of(operator_token.variant),
                ) {
                    Err(e) => Err(e),
                    Ok((right, next)) => Ok(
                        (
                            ExpressionView::Infix {
                                left: Box::new(left),
                                operator,
                                right: Box::new(right),
                            },
                            next,
                        ),
                    ),
                },
            }
        }
    } else {
        Err(ErrorView::MissingToken)
    }
}

/// `(expression (, expression)*)? )`: the arguments of a call, after its
/// opening parenthesis.
pub open spec fn parse_call_arguments(ts: Seq<TokenView>, pos: int) -> Parsed<Seq<ExpressionView>>
    decreases ts.len() - pos, 5nat,
{
    if peek_is(ts, pos, TokenType::RIGHTPAREN) {
        Ok((Seq::empty(), pos + 1))
    } else {
        parse_argument_list(ts, pos, Seq::empty())
    }
}

/// `expression (, expression)* )`: the arguments that follow those in `acc`.
pub open spec fn parse_argument_list(
    ts: Seq<TokenView>,
    pos: int,
    acc: Seq<ExpressionView>,
) -> Parsed<Seq<ExpressionView>>
    decreases ts.len() - pos, 4nat,
{
    match progress(parse_expression(ts, pos, Precedence::LOWEST), pos, ts.len()) {
        Err(e) => Err(e),
        Ok((argument, next)) => if peek_is(ts, next, TokenType::COMMA) {
            parse_argument_list(ts, next + 1, acc.push(argument))
        } else {
            match expect(ts, next, TokenType::RIGHTPAREN) {
                Err(e) => Err(e),
                Ok((_, end)) => Ok((acc.push(argument), end)),
            }
        },
    }
}

/// A term that needs nothing on its left: an identifier, a literal, a prefix
/// operator with its operand, an expression in parentheses, an `if` or a
/// function literal.
pub open spec fn parse_null_definition(ts: Seq<TokenView>, pos: int) -> Parsed<ExpressionView>
    decreases ts.len() - pos, 2nat,
{
    if 0 <= pos < ts.len() {
        match ts[pos].variant {
            TokenType::IDENT => parse_identifier(ts, pos),
            TokenType::INT => parse_integer_literal(ts, pos),
            TokenType::BANG => parse_prefix_expression(ts, pos),
            TokenType::MINUS => parse_prefix_expression(ts, pos),
            TokenType::TRUE => parse_boolean_expression(ts, pos),
            TokenType::FALSE => parse_boolean_expression(ts, pos),
            TokenType::LEFTPAREN => parse_grouped_expression(ts, pos),
            TokenType::IF => parse_if_expression(ts, pos),
            TokenType::FUNCTION => parse_function_literal_expression(ts, pos),
            _ => Err(ErrorView::UnexpectedToken(ts[pos].literal)),
        }
    } else {
        Err(ErrorView::MissingToken)
    }
}

/// An identifier.
pub open spec fn parse_identifier(ts: Seq<TokenView>, pos: int) -> Parsed<ExpressionView> {
    match expect(ts, pos, TokenType::IDENT) {
        Err(e) => Err(e),
        Ok((token, next)) => Ok((ExpressionView::Identifier(token.literal), next)),
    }
}

/// An integer literal, whose digits must denote an `i64`.
pub open spec fn parse_integer_literal(ts: Seq<TokenView>, pos: int) -> Parsed<ExpressionView> {
    match expect(ts, pos, TokenType::INT) {
        Err(e) => Err(e),
        Ok((token, next)) => match integer_value(token.literal) {
            Some(value) => Ok((ExpressionView::IntegerLiteral(value), next)),
            None => Err(ErrorView::InvalidIntegerValue(token.literal)),
        },
    }
}

/// `true` or `false`.
pub open spec fn parse_boolean_expression(ts: Seq<TokenView>, pos: int) -> Parsed<ExpressionView> {
    if 0 <= pos < ts.len() {
        let token = ts[pos];
        if token.variant == TokenType::TRUE || token.variant == TokenType::FALSE {
            if token.literal == "true"@ {
                Ok((ExpressionView::Boolean(true), pos + 1))
            } else if token.literal == "false"@ {
                Ok((ExpressionView::Boolean(false), pos + 1))
            } else {
                Err(ErrorView::InvalidBooleanValue(token.literal))
            }
        } else {
            Err(ErrorView::UnexpectedToken(token.literal))
        }
    } else {
        Err(ErrorView::MissingToken)
    }
}

/// `!` or `-` and its operand, which is read at the level `PREFIX`.
pub open spec fn parse_prefix_expression(ts: Seq<TokenView>, pos: int) -> Parsed<ExpressionView>
    decreases ts.len() - pos, 1nat,
{
    if 0 <= pos < ts.len() {
        match prefix_operator_for(ts[pos].variant) {
            None => Err(ErrorView::InvalidPrefixOperator(ts[pos].literal)),
            Some(operator) => match parse_expression(ts, pos + 1, Precedence::PREFIX) {
                Err(e) => Err(e),
                Ok((right, next)) => Ok(
                    (ExpressionView::Prefix { operator, right: Box::new(right) }, next),
                ),
            },
        }
    } else {
        Err(ErrorView::MissingToken)
    }
}

/// `( expression )`.
pub open spec fn parse_grouped_expression(ts: Seq<TokenView>, pos: int) -> Parsed<ExpressionView>
    decreases ts.len() - pos, 1nat,
{
    match expect(ts, pos, TokenType::LEFTPAREN) {
        Err(e) => Err(e),
        Ok((_, inside)) => match parse_expression(ts, inside, Precedence::LOWEST) {
            Err(e) => Err(e),
            Ok((expression, next)) => match expect(ts, next, TokenType::RIGHTPAREN) {
                Err(e) => Err(e),
                Ok((_, end)) => Ok((expression, end)),
            },
        },
    }
}

/// `if ( condition ) block`, with `else block` where an `else` follows.
pub open spec fn parse_if_expression(ts: Seq<TokenView>, pos: int) -> Parsed<ExpressionView>
    decreases ts.len() - pos, 1nat,
{
    match expect(ts, pos, TokenType::IF) {
        Err(e) => Err(e),
        Ok((_, after_if)) => match expect(ts, after_if, TokenType::LEFTPAREN) {
            Err(e) => Err(e),
            Ok((_, inside)) => match progress(
                parse_expression(ts, inside, Precedence::LOWEST),
                inside,
                ts.len(),
            ) {
                Err(e) => Err(e),
                Ok((condition, after_condition)) => match expect(
                    ts,
                    after_condition,
                    TokenType::RIGHTPAREN,
                ) {
                    Err(e) => Err(e),
                    Ok((_, before_block)) => match progress(
                        parse_block(ts, before_block),
                        before_block,
                        ts.len(),
                    ) {
                        Err(e) => Err(e),
                        Ok((consequence, after_block)) => if peek_is(
                            ts,
                            after_block,
                            TokenType::ELSE,
                        ) {
                            match parse_block(ts, after_block + 1) {
                                Err(e) => Err(e),
                                Ok((alternative, end)) => Ok(
                                    (
                                        ExpressionView::If {
                                            condition: Box::new(condition),
                                            consequence,
                                            alternative: Some(alternative),
                                        },
                                        end,
                                    ),
                                ),
                            }
                        } else {
                            Ok(
                                (
                                    ExpressionView::If {
                                        condition: Box::new(condition),
                                        consequence,
                                        alternative: None,
                                    },
                                    after_block,
                                ),
                            )
                        },
                    },
                },
            },
        },
    }
}

/// `fn ( parameters ) block`.
pub open spec fn parse_function_literal_expression(ts: Seq<TokenView>, pos: int) -> Parsed<
    ExpressionView,
>
    decreases ts.len() - pos, 1nat,
{
    match expect(ts, pos, TokenType::FUNCTION) {
        Err(e) => Err(e),
        Ok((_, after_fn)) => match expect(ts, after_fn, TokenType::LEFTPAREN) {
            Err(e) => Err(e),
            Ok((_, inside)) => match progress(parse_parameters(ts, inside), inside, ts.len()) {
                Err(e) => Err(e),
                Ok((parameters, before_block)) => match parse_block(ts, before_block) {
                    Err(e) => Err(e),
                    Ok((body, end)) => Ok(
                        (ExpressionView::FunctionLiteral { parameters, body }, end),
                    ),
                },
            },
        },
    }
}

/// `{ statement* }`.
pub open spec fn parse_block(ts: Seq<TokenView>, pos: int) -> Parsed<Seq<StatementView>>
    decreases ts.len() - pos, 8nat,
{
    match expect(ts, pos, TokenType::LEFTBRACE) {
        Err(e) => Err(e),
        Ok((_, inside)) => parse_block_statements(ts, inside, Seq::empty()),
    }
}

/// `statement* }`: the statements of a block that follow those in `acc`.
pub open spec fn parse_block_statements(
    ts: Seq<TokenView>,
    pos: int,
    acc: Seq<StatementView>,
) -> Parsed<Seq<StatementView>>
    decreases ts.len() - pos, 7nat,
{
    if peek_is(ts, pos, TokenType::RIGHTBRACE) {
        Ok((acc, pos + 1))
    } else {
        match progress(parse_statement(ts, pos), pos, ts.len()) {
            Err(e) => Err(e),
            Ok((statement, next)) => parse_block_statements(ts, next, acc.push(statement)),
        }
    }
}

/// A statement: `let`, `return`, or an expression.
pub open spec fn parse_statement(ts: Seq<TokenView>, pos: int) -> Parsed<StatementView>
    decreases ts.len() - pos, 6nat,
{
    if 0 <= pos < ts.len() {
        match ts[pos].variant {
            TokenType::LET => parse_let_statement(ts, pos),
            TokenType::RETURN => parse_return_statement(ts, pos),
            _ => parse_expression_statement(ts, pos),
        }
    } else {
        Err(ErrorView::MissingToken)
    }
}

/// `let IDENT = expression ;`.
pub open spec fn parse_let_statement(ts: Seq<TokenView>, pos: int) -> Parsed<StatementView>
    decreases ts.len() - pos, 5nat,
{
    match expect(ts, pos, TokenType::LET) {
        Err(e) => Err(e),
        Ok((_, after_let)) => match expect(ts, after_let, TokenType::IDENT) {
            Err(e) => Err(e),
            Ok((name, after_name)) => match expect(ts, after_name, TokenType::ASSIGN) {
                Err(e) => Err(e),
                Ok((_, after_assign)) => match parse_expression(
                    ts,
                    after_assign,
                    Precedence::LOWEST,
                ) {
                    Err(e) => Err(e),
                    Ok((value, after_value)) => match expect(
                        ts,
                        after_value,
                        TokenType::SEMICOLON,
                    ) {
                        Err(e) => Err(e),
                        Ok((_, end)) => Ok(
                            (StatementView::Let { identifier: name.literal, value }, end),
                        ),
                    },
                },
            },
        },
    }
}

/// `return expression ;`.
pub open spec fn parse_return_statement(ts: Seq<TokenView>, pos: int) -> Parsed<StatementView>
    decreases ts.len() - pos, 5nat,
{
    match expect(ts, pos, TokenType::RETURN) {
        Err(e) => Err(e),
        Ok((_, after_return)) => match parse_expression(ts, after_return, Precedence::LOWEST) {
            Err(e) => Err(e),
            Ok((return_value, after_value)) => match expect(
                ts,
                after_value,
                TokenType::SEMICOLON,
            ) {
                Err(e) => Err(e),
                Ok((_, end)) => Ok((StatementView::Return { return_value }, end)),
            },
        },
    }
}

/// An expression, and the `;` after it where there is one.
pub open spec fn parse_expression_statement(ts: Seq<TokenView>, pos: int) -> Parsed<StatementView>
    decreases ts.len() - pos, 5nat,
{
    match parse_expression(ts, pos, Precedence::LOWEST) {
        Err(e) => Err(e),
        Ok((expression, next)) => Ok(
            (
                StatementView::Expression(expression),
                if peek_is(ts, next, TokenType::SEMICOLON) {
                    next + 1
                } else {
                    next
                },
            ),
        ),
    }
}

/// The statements of a program that follow those in `acc`, up to the end of
/// the tokens.
pub open spec fn parse_program_statements(
    ts: Seq<TokenView>,
    pos: int,
    acc: Seq<StatementView>,
) -> Result<Seq<StatementView>, ErrorView>
    decreases ts.len() - pos,
{
    if 0 <= pos < ts.len() {
        match progress(parse_statement(ts, pos), pos, ts.len()) {
            Err(e) => Err(e),
            Ok((statement, next)) => parse_program_statements(ts, next, acc.push(statement)),
        }
    } else {
        Ok(acc)
    }
}

/// The program that the tokens `ts` spell, or the first error met.
pub open spec fn parse_program_spec(ts: Seq<TokenView>) -> Result<Seq<StatementView>, ErrorView> {
    parse_program_statements(ts, 0, Seq::empty())
}

} // verus!
