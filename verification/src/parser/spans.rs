//! Every construct of the grammar spans at least one token, and every error
//! of the grammar is an error of the parser.
//!
//! The grammar is defined by recursion on the number of tokens left, and
//! passes each intermediate result through `progress`, which gives an error
//! where a result does not end after the position it started from. The laws
//! here show that no result ever fails that test: `progress` changes nothing,
//! and the grammar is what it reads without it.

use vstd::prelude::*;
use crate::ast::{ExpressionView, StatementView};
use crate::error::is_parse_error;
use crate::parser::grammar::{
    expect, parse_argument_list, parse_block, parse_block_statements, parse_call_arguments,
    parse_expression, parse_function_literal_expression, parse_grouped_expression,
    parse_if_expression, parse_infix_expression, parse_infix_loop, parse_null_definition,
    parse_parameter_list, parse_parameters, parse_prefix_expression, parse_program_spec,
    parse_program_statements, parse_statement, peek_is, precedence_of, progress, Parsed,
    Precedence,
};
use crate::token::{TokenType, TokenView};

verus! {

/// Whether `r`, read from position `pos`, ends after `pos` and within the
/// tokens.
pub open spec fn advances<T>(r: Parsed<T>, pos: int, len: nat) -> bool {
    r matches Ok((_, next)) ==> pos < next <= len
}

/// Whether `r`, where it is an error, is an error of the parser.
pub open spec fn fails_in_parsing<T>(r: Parsed<T>) -> bool {
    r matches Err(e) ==> is_parse_error(e)
}

/// A result that advances passes through `progress` unchanged.
pub proof fn lemma_progress_is_identity<T>(r: Parsed<T>, pos: int, len: nat)
    requires
        advances(r, pos, len),
    ensures
        progress(r, pos, len) == r,
{
}

pub proof fn lemma_parameter_list_advances(ts: Seq<TokenView>, pos: int, acc: Seq<Seq<char>>)
    ensures
        advances(parse_parameter_list(ts, pos, acc), pos, ts.len()),
        fails_in_parsing(parse_parameter_list(ts, pos, acc)),
    decreases ts.len() - pos,
{
    match expect(ts, pos, TokenType::IDENT) {
        Err(_) => {},
        Ok((name, after_name)) => {
            if peek_is(ts, after_name, TokenType::COMMA) {
                lemma_parameter_list_advances(ts, after_name + 1, acc.push(name.literal));
            }
        },
    }
}

pub proof fn lemma_parameters_advance(ts: Seq<TokenView>, pos: int)
    ensures
        advances(parse_parameters(ts, pos), pos, ts.len()),
        fails_in_parsing(parse_parameters(ts, pos)),
{
    lemma_parameter_list_advances(ts, pos, Seq::empty());
}

pub proof fn lemma_expression_advances(ts: Seq<TokenView>, pos: int, level: Precedence)
    ensures
        advances(parse_expression(ts, pos, level), pos, ts.len()),
        fails_in_parsing(parse_expression(ts, pos, level)),
    decreases ts.len() - pos, 3nat,
{
    lemma_null_definition_advances(ts, pos);
    match parse_null_definition(ts, pos) {
        Err(_) => {},
        Ok((left, next)) => {
            lemma_infix_loop_advances(ts, next, left, level);
        },
    }
}

pub proof fn lemma_infix_loop_advances(
    ts: Seq<TokenView>,
    pos: int,
    left: ExpressionView,
    level: Precedence,
)
    requires
        0 <= pos <= ts.len(),
    ensures
        parse_infix_loop(ts, pos, left, level) matches Ok((_, next)) ==> pos <= next <= ts.len(),
        fails_in_parsing(parse_infix_loop(ts, pos, left, level)),
    decreases ts.len() - pos, 1nat,
{
    if 0 <= pos < ts.len() && ts[pos].variant != TokenType::SEMICOLON && level.rank()
        < precedence_of(ts[pos].variant).rank() {
        lemma_infix_expression_advances(ts, pos, left);
        match parse_infix_expression(ts, pos, left) {
            Err(_) => {},
            Ok((joined, next)) => {
                lemma_infix_loop_advances(ts, next, joined, level);
            },
        }
    }
}

pub proof fn lemma_infix_expression_advances(ts: Seq<TokenView>, pos: int, left: ExpressionView)
    ensures
        advances(parse_infix_expression(ts, pos, left), pos, ts.len()),
        fails_in_parsing(parse_infix_expression(ts, pos, left)),
    decreases ts.len() - pos, 0nat,
{
    if 0 <= pos < ts.len() {
        if ts[pos].variant == TokenType::LEFTPAREN {
            lemma_call_arguments_advance(ts, pos + 1);
        } else {
            lemma_expression_advances(ts, pos + 1, precedence_of(ts[pos].variant));
        }
    }
}

pub proof fn lemma_call_arguments_advance(ts: Seq<TokenView>, pos: int)
    ensures
        advances(parse_call_arguments(ts, pos), pos, ts.len()),
        fails_in_parsing(parse_call_arguments(ts, pos)),
    decreases ts.len() - pos, 5nat,
{
    if !peek_is(ts, pos, TokenType::RIGHTPAREN) {
        lemma_argument_list_advances(ts, pos, Seq::empty());
    }
}

pub proof fn lemma_argument_list_advances(ts: Seq<TokenView>, pos: int, acc: Seq<ExpressionView>)
    ensures
        advances(parse_argument_list(ts, pos, acc), pos, ts.len()),
        fails_in_parsing(parse_argument_list(ts, pos, acc)),
    decreases ts.len() - pos, 4nat,
{
    lemma_expression_advances(ts, pos, Precedence::LOWEST);
    match parse_expression(ts, pos, Precedence::LOWEST) {
        Err(_) => {},
        Ok((argument, next)) => {
            if peek_is(ts, next, TokenType::COMMA) {
                lemma_argument_list_advances(ts, next + 1, acc.push(argument));
            }
        },
    }
}

pub proof fn lemma_null_definition_advances(ts: Seq<TokenView>, pos: int)
    ensures
        advances(parse_null_definition(ts, pos), pos, ts.len()),
        fails_in_parsing(parse_null_definition(ts, pos)),
    decreases ts.len() - pos, 2nat,
{
    if 0 <= pos < ts.len() {
        match ts[pos].variant {
            TokenType::BANG => lemma_prefix_expression_advances(ts, pos),
            TokenType::MINUS => lemma_prefix_expression_advances(ts, pos),
            TokenType::LEFTPAREN => lemma_grouped_expression_advances(ts, pos),
            TokenType::IF => lemma_if_expression_advances(ts, pos),
            TokenType::FUNCTION => lemma_function_literal_advances(ts, pos),
            _ => {},
        }
    }
}

pub proof fn lemma_prefix_expression_advances(ts: Seq<TokenView>, pos: int)
    ensures
        advances(parse_prefix_expression(ts, pos), pos, ts.len()),
        fails_in_parsing(parse_prefix_expression(ts, pos)),
    decreases ts.len() - pos, 1nat,
{
    if 0 <= pos < ts.len() {
        lemma_expression_advances(ts, pos + 1, Precedence::PREFIX);
    }
}

pub proof fn lemma_grouped_expression_advances(ts: Seq<TokenView>, pos: int)
    ensures
        advances(parse_grouped_expression(ts, pos), pos, ts.len()),
        fails_in_parsing(parse_grouped_expression(ts, pos)),
    decreases ts.len() - pos, 1nat,
{
    if 0 <= pos < ts.len() {
        lemma_expression_advances(ts, pos + 1, Precedence::LOWEST);
    }
}

pub proof fn lemma_if_expression_advances(ts: Seq<TokenView>, pos: int)
    ensures
        advances(parse_if_expression(ts, pos), pos, ts.len()),
        fails_in_parsing(parse_if_expression(ts, pos)),
    decreases ts.len() - pos, 1nat,
{
    if expect(ts, pos, TokenType::IF) is Ok && expect(ts, pos + 1, TokenType::LEFTPAREN) is Ok {
        lemma_expression_advances(ts, pos + 2, Precedence::LOWEST);
        match parse_expression(ts, pos + 2, Precedence::LOWEST) {
            Err(_) => {},
            Ok((_, after_condition)) => {
                if expect(ts, after_condition, TokenType::RIGHTPAREN) is Ok {
                    lemma_block_advances(ts, after_condition + 1);
                    match parse_block(ts, after_condition + 1) {
                        Err(_) => {},
                        Ok((_, after_block)) => {
                            if peek_is(ts, after_block, TokenType::ELSE) {
                                lemma_block_advances(ts, after_block + 1);
                            }
                        },
                    }
                }
            },
        }
    }
}

pub proof fn lemma_function_literal_advances(ts: Seq<TokenView>, pos: int)
    ensures
        advances(parse_function_literal_expression(ts, pos), pos, ts.len()),
        fails_in_parsing(parse_function_literal_expression(ts, pos)),
    decreases ts.len() - pos, 1nat,
{
    if expect(ts, pos, TokenType::FUNCTION) is Ok && expect(ts, pos + 1, TokenType::LEFTPAREN)
        is Ok {
        lemma_parameters_advance(ts, pos + 2);
        match parse_parameters(ts, pos + 2) {
            Err(_) => {},
            Ok((_, before_block)) => {
                lemma_block_advances(ts, before_block);
            },
        }
    }
}

pub proof fn lemma_block_advances(ts: Seq<TokenView>, pos: int)
    ensures
        advances(parse_block(ts, pos), pos, ts.len()),
        fails_in_parsing(parse_block(ts, pos)),
    decreases ts.len() - pos, 8nat,
{
    if expect(ts, pos, TokenType::LEFTBRACE) is Ok {
        lemma_block_statements_advance(ts, pos + 1, Seq::empty());
    }
}

pub proof fn lemma_block_statements_advance(ts: Seq<TokenView>, pos: int, acc: Seq<StatementView>)
    ensures
        advances(parse_block_statements(ts, pos, acc), pos, ts.len()),
        fails_in_parsing(parse_block_statements(ts, pos, acc)),
    decreases ts.len() - pos, 7nat,
{
    if !peek_is(ts, pos, TokenType::RIGHTBRACE) {
        lemma_statement_advances(ts, pos);
        match parse_statement(ts, pos) {
            Err(_) => {},
            Ok((statement, next)) => {
                lemma_block_statements_advance(ts, next, acc.push(statement));
            },
        }
    }
}

pub proof fn lemma_statement_advances(ts: Seq<TokenView>, pos: int)
    ensures
        advances(parse_statement(ts, pos), pos, ts.len()),
        fails_in_parsing(parse_statement(ts, pos)),
    decreases ts.len() - pos, 6nat,
{
    if 0 <= pos < ts.len() {
        match ts[pos].variant {
            TokenType::LET => {
                if expect(ts, pos + 1, TokenType::IDENT) is Ok && expect(
                    ts,
                    pos + 2,
                    TokenType::ASSIGN,
                ) is Ok {
                    lemma_expression_advances(ts, pos + 3, Precedence::LOWEST);
                }
            },
            TokenType::RETURN => {
                lemma_expression_advances(ts, pos + 1, Precedence::LOWEST);
            },
            _ => {
                lemma_expression_advances(ts, pos, Precedence::LOWEST);
            },
        }
    }
}

/// The grammar without the test: an expression is a term joined with the
/// operators that follow it.
pub proof fn lemma_expression_unfolds(ts: Seq<TokenView>, pos: int, level: Precedence)
    ensures
        parse_expression(ts, pos, level) == match parse_null_definition(ts, pos) {
            Err(e) => Err(e),
            Ok((left, next)) => parse_infix_loop(ts, next, left, level),
        },
{
    lemma_null_definition_advances(ts, pos);
}

/// Statements up to the end of the tokens fail, where they fail, with an
/// error of the parser.
pub proof fn lemma_program_statements_fail_in_parsing(
    ts: Seq<TokenView>,
    pos: int,
    acc: Seq<StatementView>,
)
    ensures
        parse_program_statements(ts, pos, acc) matches Err(e) ==> is_parse_error(e),
    decreases ts.len() - pos,
{
    if 0 <= pos < ts.len() {
        lemma_statement_advances(ts, pos);
        match parse_statement(ts, pos) {
            Err(_) => {},
            Ok((statement, next)) => {
                lemma_program_statements_fail_in_parsing(ts, next, acc.push(statement));
            },
        }
    }
}

/// Parsing gives a program or an error of the parser, never one of the
/// evaluator.
pub proof fn lemma_parsing_fails_in_parsing(ts: Seq<TokenView>)
    ensures
        parse_program_spec(ts) matches Err(e) ==> is_parse_error(e),
{
    lemma_program_statements_fail_in_parsing(ts, 0, Seq::empty());
}

} // verus!
