//! How operators group: laws of precedence and associativity.

use vstd::prelude::*;
use crate::ast::ExpressionView;
use crate::parser::grammar::{
    infix_operator_for, parse_expression, parse_infix_expression, parse_infix_loop,
    parse_null_definition, parse_prefix_expression, precedence_of, prefix_operator_for, Parsed,
    Precedence,
};
use crate::token::{TokenType, TokenView};

verus! {

/// The expression that an identifier token is.
pub open spec fn name_of(token: TokenView) -> ExpressionView {
    ExpressionView::Identifier(token.literal)
}

/// `left operator right`.
pub open spec fn joined(left: ExpressionView, operator: TokenView, right: ExpressionView) -> ExpressionView
    recommends
        infix_operator_for(operator.variant) is Some,
{
    ExpressionView::Infix {
        left: Box::new(left),
        operator: infix_operator_for(operator.variant)->0,
        right: Box::new(right),
    }
}

/// The result of reading `pair.0` up to position `pair.1`.
pub open spec fn reads(pair: (ExpressionView, int)) -> Parsed<ExpressionView> {
    Ok(pair)
}

/// An identifier is a term by itself.
proof fn lemma_identifier_is_a_term(ts: Seq<TokenView>, pos: int)
    requires
        0 <= pos < ts.len(),
        ts[pos].variant == TokenType::IDENT,
    ensures
        parse_null_definition(ts, pos) == reads((name_of(ts[pos]), pos + 1)),
{
}

/// An identifier that ends the tokens, or is followed by an operator that
/// binds no tighter than `level`, is a whole expression at that level.
proof fn lemma_last_operand(ts: Seq<TokenView>, pos: int, level: Precedence)
    requires
        0 <= pos < ts.len(),
        ts[pos].variant == TokenType::IDENT,
        pos + 1 < ts.len() ==> precedence_of(ts[pos + 1].variant).rank() <= level.rank(),
    ensures
        parse_expression(ts, pos, level) == reads((name_of(ts[pos]), pos + 1)),
{
    lemma_identifier_is_a_term(ts, pos);
    assert(parse_infix_loop(ts, pos + 1, name_of(ts[pos]), level) == reads(
        (name_of(ts[pos]), pos + 1),
    ));
}

/// Of two infix operators in a row, the first takes the operand between them
/// unless the second binds tighter: `a + b * c` is `a + (b * c)`, while
/// `a * b + c` is `(a * b) + c` and `a - b + c` is `(a - b) + c`; operators
/// of one level group to the left.
pub proof fn lemma_infix_operators_group_by_level(
    a: TokenView,
    first: TokenView,
    b: TokenView,
    second: TokenView,
    c: TokenView,
)
    requires
        a.variant == TokenType::IDENT,
        b.variant == TokenType::IDENT,
        c.variant == TokenType::IDENT,
        infix_operator_for(first.variant) is Some,
        infix_operator_for(second.variant) is Some,
    ensures
        parse_expression(seq![a, first, b, second, c], 0, Precedence::LOWEST) == reads(
            (
                if precedence_of(first.variant).rank() < precedence_of(second.variant).rank() {
                    joined(name_of(a), first, joined(name_of(b), second, name_of(c)))
                } else {
                    joined(joined(name_of(a), first, name_of(b)), second, name_of(c))
                },
                5int,
            ),
        ),
{
    let ts = seq![a, first, b, second, c];
    let lowest = Precedence::LOWEST;
    let first_level = precedence_of(first.variant);
    let second_level = precedence_of(second.variant);
    assert(first_level.rank() > 0 && second_level.rank() > 0);
    assert(first.variant != TokenType::SEMICOLON && second.variant != TokenType::SEMICOLON);
    assert(first.variant != TokenType::LEFTPAREN && second.variant != TokenType::LEFTPAREN);
    lemma_identifier_is_a_term(ts, 0);
    assert(parse_expression(ts, 0, lowest) == parse_infix_loop(ts, 1, name_of(a), lowest));
    if first_level.rank() < second_level.rank() {
        // the second operator takes `b`
        lemma_last_operand(ts, 4, second_level);
        let inner = joined(name_of(b), second, name_of(c));
        assert(parse_infix_expression(ts, 3, name_of(b)) == reads((inner, 5)));
        assert(parse_infix_loop(ts, 5, inner, first_level) == reads((inner, 5)));
        assert(parse_infix_loop(ts, 3, name_of(b), first_level) == reads((inner, 5)));
        lemma_identifier_is_a_term(ts, 2);
        assert(parse_expression(ts, 2, first_level) == reads((inner, 5)));
        let whole = joined(name_of(a), first, inner);
        assert(parse_infix_expression(ts, 1, name_of(a)) == reads((whole, 5)));
        assert(parse_infix_loop(ts, 5, whole, lowest) == reads((whole, 5)));
        assert(parse_infix_loop(ts, 1, name_of(a), lowest) == reads((whole, 5)));
    } else {
        // the first operator takes `b`
        lemma_last_operand(ts, 2, first_level);
        let inner = joined(name_of(a), first, name_of(b));
        assert(parse_infix_expression(ts, 1, name_of(a)) == reads((inner, 3)));
        lemma_last_operand(ts, 4, second_level);
        let whole = joined(inner, second, name_of(c));
        assert(parse_infix_expression(ts, 3, inner) == reads((whole, 5)));
        assert(parse_infix_loop(ts, 5, whole, lowest) == reads((whole, 5)));
        assert(parse_infix_loop(ts, 3, inner, lowest) == reads((whole, 5)));
        assert(parse_infix_loop(ts, 1, name_of(a), lowest) == reads((whole, 5)));
    }
}

/// A prefix operator binds tighter than any infix operator: `-a * b` is
/// `(-a) * b`.
pub proof fn lemma_prefix_binds_tighter_than_infix(
    prefix: TokenView,
    a: TokenView,
    operator: TokenView,
    b: TokenView,
)
    requires
        prefix_operator_for(prefix.variant) is Some,
        a.variant == TokenType::IDENT,
        b.variant == TokenType::IDENT,
        infix_operator_for(operator.variant) is Some,
    ensures
        parse_expression(seq![prefix, a, operator, b], 0, Precedence::LOWEST) == reads(
            (
                joined(
                    ExpressionView::Prefix {
                        operator: prefix_operator_for(prefix.variant)->0,
                        right: Box::new(name_of(a)),
                    },
                    operator,
                    name_of(b),
                ),
                4int,
            ),
        ),
{
    let ts = seq![prefix, a, operator, b];
    let lowest = Precedence::LOWEST;
    let level = precedence_of(operator.variant);
    assert(0 < level.rank() < Precedence::PREFIX.rank());
    assert(operator.variant != TokenType::SEMICOLON && operator.variant != TokenType::LEFTPAREN);
    lemma_last_operand(ts, 1, Precedence::PREFIX);
    let negated = ExpressionView::Prefix {
        operator: prefix_operator_for(prefix.variant)->0,
        right: Box::new(name_of(a)),
    };
    assert(parse_prefix_expression(ts, 0) == reads((negated, 2)));
    assert(parse_null_definition(ts, 0) == reads((negated, 2)));
    lemma_last_operand(ts, 3, level);
    let whole = joined(negated, operator, name_of(b));
    assert(parse_infix_expression(ts, 2, negated) == reads((whole, 4)));
    assert(parse_infix_loop(ts, 4, whole, lowest) == reads((whole, 4)));
    assert(parse_infix_loop(ts, 2, negated, lowest) == reads((whole, 4)));
}

} // verus!
