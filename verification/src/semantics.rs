//! What programs mean: evaluation as functions on the mathematical values of
//! syntax trees and environments.
//!
//! Each function gives the result of evaluating a construct in scope `scope`
//! of the environment `env`, together with the environment after it. `depth`
//! is the number of nested calls still allowed; a call beyond it is an error,
//! which is what makes every evaluation end.

use vstd::prelude::*;
use crate::ast::{ExpressionView, InfixOperator, PrefixOperator, StatementView};
use crate::display::infix_operator_text;
use crate::environment::{bind, capture, lookup, push_scope, release, ScopeView};
use crate::error::{is_runtime_error, ErrorView};
use crate::object::{kind_name, plain, truthy, EvaluationView, ObjectView};

verus! {

/// The result of an evaluation and the environment after it.
pub type Outcome<T> = (Result<T, ErrorView>, Seq<ScopeView>);

/// The quotient of `a` by `b`, rounded towards zero.
pub open spec fn truncated_quotient(a: int, b: int) -> int
    recommends
        b != 0,
{
    if a == 0 {
        0
    } else if a > 0 && b > 0 {
        a / b
    } else if a < 0 && b < 0 {
        (a * -1) / (b * -1)
    } else if a < 0 {
        ((a * -1) / b) * -1
    } else {
        (a / (b * -1)) * -1
    }
}

/// An integer result, where it can be held in 64 bits.
pub open spec fn integer_result(value: int) -> Result<ObjectView, ErrorView> {
    if i64::MIN <= value <= i64::MAX {
        Ok(ObjectView::Integer(value as i64))
    } else {
        Err(ErrorView::IntegerOverflow)
    }
}

/// `!`: true exactly of the values that do not count as true.
pub open spec fn eval_bang_prefix_operator(object: ObjectView) -> ObjectView {
    ObjectView::Boolean(!truthy(object))
}

/// `-`: the negation of an integer; no other value has one.
pub open spec fn eval_minus_prefix_operator(object: ObjectView) -> Result<ObjectView, ErrorView> {
    match object {
        ObjectView::Integer(value) => integer_result(-(value as int)),
        _ => Err(ErrorView::UnknownOperator("-"@ + kind_name(object))),
    }
}

pub open spec fn eval_prefix_expression(operator: PrefixOperator, right: ObjectView) -> Result<
    ObjectView,
    ErrorView,
> {
    match operator {
        PrefixOperator::BANG => Ok(eval_bang_prefix_operator(right)),
        PrefixOperator::NEGATE => eval_minus_prefix_operator(right),
    }
}

/// An infix operator on two integers: arithmetic that must stay within 64
/// bits, division that rounds towards zero and refuses a zero divisor, and
/// comparisons.
pub open spec fn eval_integer_infix_expression(operator: InfixOperator, left: i64, right: i64) -> Result<
    ObjectView,
    ErrorView,
> {
    match operator {
        InfixOperator::PLUS => integer_result(left + right),
        InfixOperator::MINUS => integer_result(left - right),
        InfixOperator::MULTIPLY => integer_result(left * right),
        InfixOperator::DIVIDE => if right == 0 {
            Err(ErrorView::DivisionByZero)
        } else {
            integer_result(truncated_quotient(left as int, right as int))
        },
        InfixOperator::LESSTHAN => Ok(ObjectView::Boolean(left < right)),
        InfixOperator::GREATERTHAN => Ok(ObjectView::Boolean(left > right)),
        InfixOperator::EQUAL => Ok(ObjectView::Boolean(left == right)),
        InfixOperator::NOTEQUAL => Ok(ObjectView::Boolean(left != right)),
    }
}

/// An infix operator on two booleans: `==` and `!=` compare them; arithmetic
/// and ordering are for integers alone, so any other operator is a type
/// mismatch.
pub open spec fn eval_boolean_infix_expression(operator: InfixOperator, left: bool, right: bool) -> Result<
    ObjectView,
    ErrorView,
> {
    match operator {
        InfixOperator::EQUAL => Ok(ObjectView::Boolean(left == right)),
        InfixOperator::NOTEQUAL => Ok(ObjectView::Boolean(left != right)),
        _ => Err(
            ErrorView::TypeMismatch {
                left: "BOOLEAN"@,
                operator: infix_operator_text(operator),
                right: "BOOLEAN"@,
            },
        ),
    }
}

/// An infix operator on two values: both integers or both booleans; any
/// other pair is a type mismatch.
pub open spec fn eval_infix_expression(operator: InfixOperator, left: ObjectView, right: ObjectView) -> Result<
    ObjectView,
    ErrorView,
> {
    match (left, right) {
        (ObjectView::Integer(a), ObjectView::Integer(b)) => eval_integer_infix_expression(
            operator,
            a,
            b,
        ),
        (ObjectView::Boolean(a), ObjectView::Boolean(b)) => eval_boolean_infix_expression(
            operator,
            a,
            b,
        ),
        _ => Err(
            ErrorView::TypeMismatch {
                left: kind_name(left),
                operator: infix_operator_text(operator),
                right: kind_name(right),
            },
        ),
    }
}

/// A value or an error as the result of an expression.
pub open spec fn as_evaluation(r: Result<ObjectView, ErrorView>) -> Result<
    EvaluationView,
    ErrorView,
> {
    match r {
        Ok(object) => Ok(plain(object)),
        Err(e) => Err(e),
    }
}

/// `env` with the parameters from position `i` on bound to their arguments
/// in scope `scope`, in order, so that of two parameters with one name the
/// later one stands.
pub open spec fn bind_parameters(
    env: Seq<ScopeView>,
    scope: nat,
    parameters: Seq<Seq<char>>,
    arguments: Seq<ObjectView>,
    i: int,
) -> Seq<ScopeView>
    decreases parameters.len() - i,
{
    if 0 <= i < parameters.len() && i < arguments.len() {
        bind_parameters(
            bind(env, scope, parameters[i], arguments[i]),
            scope,
            parameters,
            arguments,
            i + 1,
        )
    } else {
        env
    }
}

/// The value of an expression.
pub open spec fn eval_expression(
    e: ExpressionView,
    env: Seq<ScopeView>,
    scope: nat,
    depth: nat,
) -> Outcome<EvaluationView>
    decreases depth, e, 0nat,
{
    match e {
        ExpressionView::IntegerLiteral(value) => (Ok(plain(ObjectView::Integer(value))), env),
        ExpressionView::Boolean(value) => (Ok(plain(ObjectView::Boolean(value))), env),
        ExpressionView::Identifier(name) => match lookup(env, scope, name) {
            Some(object) => (Ok(plain(object)), env),
            None => (Err(ErrorView::IdentifierNotFound(name)), env),
        },
        ExpressionView::Prefix { operator, right } => {
            let (right_result, env1) = eval_expression(*right, env, scope, depth);
            match right_result {
                Err(e) => (Err(e), env1),
                Ok(right_value) => (
                    as_evaluation(eval_prefix_expression(operator, right_value.object)),
                    env1,
                ),
            }
        },
        ExpressionView::Infix { left, operator, right } => {
            let (left_result, env1) = eval_expression(*left, env, scope, depth);
            match left_result {
                Err(e) => (Err(e), env1),
                Ok(left_value) => {
                    let (right_result, env2) = eval_expression(*right, env1, scope, depth);
                    match right_result {
                        Err(e) => (Err(e), env2),
                        Ok(right_value) => (
                            as_evaluation(
                                eval_infix_expression(
                                    operator,
                                    left_value.object,
                                    right_value.object,
                                ),
                            ),
                            env2,
                        ),
                    }
                },
            }
        },
        ExpressionView::If { condition, consequence, alternative } => {
            let (condition_result, env1) = eval_expression(*condition, env, scope, depth);
            match condition_result {
                Err(e) => (Err(e), env1),
                Ok(condition_value) => if truthy(condition_value.object) {
                    eval_block(consequence, env1, scope, depth)
                } else {
                    match alternative {
                        Some(block) => eval_block(block, env1, scope, depth),
                        None => (Ok(plain(ObjectView::Null)), env1),
                    }
                },
            }
        },
        ExpressionView::FunctionLiteral { parameters, body } => (
            Ok(plain(ObjectView::Function { parameters, body, env: scope })),
            capture(env, scope),
        ),
        ExpressionView::FunctionCall { function, arguments } => {
            let (function_result, env1) = eval_expression(*function, env, scope, depth);
            match function_result {
                Err(e) => (Err(e), env1),
                Ok(function_value) => match function_value.object {
                    ObjectView::Function { parameters, body, env: defined_in } => {
                        let (arguments_result, env2) = eval_arguments(
                            arguments,
                            0,
                            Seq::empty(),
                            env1,
                            scope,
                            depth,
                        );
                        match arguments_result {
                            Err(e) => (Err(e), env2),
                            Ok(values) => if values.len() != parameters.len() {
                                (
                                    Err(
                                        ErrorView::WrongArgumentCount {
                                            expected: parameters.len(),
                                            actual: values.len(),
                                        },
                                    ),
                                    env2,
                                )
                            } else if depth == 0 {
                                (Err(ErrorView::RecursionLimitExceeded), env2)
                            } else {
                                let call_scope = env2.len();
                                let env3 = bind_parameters(
                                    push_scope(env2, defined_in),
                                    call_scope,
                                    parameters,
                                    values,
                                    0,
                                );
                                let (body_result, env4) = eval_block(
                                    body,
                                    env3,
                                    call_scope,
                                    (depth - 1) as nat,
                                );
                                let env5 = release(env4, call_scope);
                                match body_result {
                                    Err(e) => (Err(e), env5),
                                    Ok(value) => (Ok(plain(value.object)), env5),
                                }
                            },
                        }
                    },
                    other => (
                        Err(ErrorView::UnknownOperator("call "@ + kind_name(other))),
                        env1,
                    ),
                },
            }
        },
    }
}

/// The values of the arguments from position `i` on, after those in `acc`,
/// from left to right.
pub open spec fn eval_arguments(
    arguments: Seq<ExpressionView>,
    i: int,
    acc: Seq<ObjectView>,
    env: Seq<ScopeView>,
    scope: nat,
    depth: nat,
) -> Outcome<Seq<ObjectView>>
    decreases depth, arguments, arguments.len() - i,
{
    if 0 <= i < arguments.len() {
        let (result, env1) = eval_expression(arguments[i], env, scope, depth);
        match result {
            Err(e) => (Err(e), env1),
            Ok(value) => eval_arguments(arguments, i + 1, acc.push(value.object), env1, scope, depth),
        }
    } else {
        (Ok(acc), env)
    }
}

/// The value of a block: that of its statements, in the scope it stands in.
pub open spec fn eval_block(
    block: Seq<StatementView>,
    env: Seq<ScopeView>,
    scope: nat,
    depth: nat,
) -> Outcome<EvaluationView>
    decreases depth, block, block.len() + 1,
{
    eval_statements(block, 0, plain(ObjectView::Null), env, scope, depth)
}

/// The value of the statements from position `i` on, where `last` is the
/// value of the statement before them: the value of the last statement
/// evaluated, which is the first `return` or the first expression whose value
/// a `return` gave, where there is one. A `let` binds its name in `scope` and
/// has the value `null`.
pub open spec fn eval_statements(
    statements: Seq<StatementView>,
    i: int,
    last: EvaluationView,
    env: Seq<ScopeView>,
    scope: nat,
    depth: nat,
) -> Outcome<EvaluationView>
    decreases depth, statements, statements.len() - i,
{
    if 0 <= i < statements.len() {
        match statements[i] {
            StatementView::Expression(expression) => {
                let (result, env1) = eval_expression(expression, env, scope, depth);
                match result {
                    Err(e) => (Err(e), env1),
                    Ok(value) => if value.is_return_value {
                        (Ok(value), env1)
                    } else {
                        eval_statements(statements, i + 1, value, env1, scope, depth)
                    },
                }
            },
            StatementView::Return { return_value } => {
                let (result, env1) = eval_expression(return_value, env, scope, depth);
                match result {
                    Err(e) => (Err(e), env1),
                    Ok(value) => (
                        Ok(EvaluationView { object: value.object, is_return_value: true }),
                        env1,
                    ),
                }
            },
            StatementView::Let { identifier, value } => {
                let (result, env1) = eval_expression(value, env, scope, depth);
                match result {
                    Err(e) => (Err(e), env1),
                    Ok(bound) => eval_statements(
                        statements,
                        i + 1,
                        plain(ObjectView::Null),
                        bind(env1, scope, identifier, bound.object),
                        scope,
                        depth,
                    ),
                }
            },
        }
    } else {
        (Ok(last), env)
    }
}

/// The value of a program in the global scope of `env`.
pub open spec fn eval_program(program: Seq<StatementView>, env: Seq<ScopeView>, depth: nat) -> Outcome<
    ObjectView,
> {
    let (result, env1) = eval_block(program, env, 0, depth);
    (
        match result {
            Ok(value) => Ok(value.object),
            Err(e) => Err(e),
        },
        env1,
    )
}

/// Whether `outcome`, where it is an error, is an error of the evaluator.
pub open spec fn fails_at_runtime<T>(outcome: Outcome<T>) -> bool {
    outcome.0 matches Err(e) ==> is_runtime_error(e)
}

/// An expression has a value or fails with an error of the evaluator.
pub proof fn lemma_expression_fails_at_runtime(
    e: ExpressionView,
    env: Seq<ScopeView>,
    scope: nat,
    depth: nat,
)
    ensures
        fails_at_runtime(eval_expression(e, env, scope, depth)),
    decreases depth, e, 0nat,
{
    match e {
        ExpressionView::Prefix { operator, right } => {
            lemma_expression_fails_at_runtime(*right, env, scope, depth);
        },
        ExpressionView::Infix { left, operator, right } => {
            lemma_expression_fails_at_runtime(*left, env, scope, depth);
            let (_, env1) = eval_expression(*left, env, scope, depth);
            lemma_expression_fails_at_runtime(*right, env1, scope, depth);
        },
        ExpressionView::If { condition, consequence, alternative } => {
            lemma_expression_fails_at_runtime(*condition, env, scope, depth);
            let (_, env1) = eval_expression(*condition, env, scope, depth);
            lemma_block_fails_at_runtime(consequence, env1, scope, depth);
            match alternative {
                Some(block) => {
                    lemma_block_fails_at_runtime(block, env1, scope, depth);
                },
                None => {},
            }
        },
        ExpressionView::FunctionCall { function, arguments } => {
            lemma_expression_fails_at_runtime(*function, env, scope, depth);
            let (function_result, env1) = eval_expression(*function, env, scope, depth);
            match function_result {
                Err(_) => {},
                Ok(function_value) => match function_value.object {
                    ObjectView::Function { parameters, body, env: defined_in } => {
                        lemma_arguments_fail_at_runtime(
                            arguments,
                            0,
                            Seq::empty(),
                            env1,
                            scope,
                            depth,
                        );
                        let (arguments_result, env2) = eval_arguments(
                            arguments,
                            0,
                            Seq::empty(),
                            env1,
                            scope,
                            depth,
                        );
                        match arguments_result {
                            Err(_) => {},
                            Ok(values) => {
                                if values.len() == parameters.len() && depth > 0 {
                                    lemma_block_fails_at_runtime(
                                        body,
                                        bind_parameters(
                                            push_scope(env2, defined_in),
                                            env2.len(),
                                            parameters,
                                            values,
                                            0,
                                        ),
                                        env2.len(),
                                        (depth - 1) as nat,
                                    );
                                }
                            },
                        }
                    },
                    _ => {},
                },
            }
        },
        _ => {},
    }
}

/// Arguments have values or fail with an error of the evaluator.
pub proof fn lemma_arguments_fail_at_runtime(
    arguments: Seq<ExpressionView>,
    i: int,
    acc: Seq<ObjectView>,
    env: Seq<ScopeView>,
    scope: nat,
    depth: nat,
)
    ensures
        fails_at_runtime(eval_arguments(arguments, i, acc, env, scope, depth)),
    decreases depth, arguments, arguments.len() - i,
{
    if 0 <= i < arguments.len() {
        lemma_expression_fails_at_runtime(arguments[i], env, scope, depth);
        let (result, env1) = eval_expression(arguments[i], env, scope, depth);
        match result {
            Err(_) => {},
            Ok(value) => {
                lemma_arguments_fail_at_runtime(
                    arguments,
                    i + 1,
                    acc.push(value.object),
                    env1,
                    scope,
                    depth,
                );
            },
        }
    }
}

/// A block has a value or fails with an error of the evaluator.
pub proof fn lemma_block_fails_at_runtime(
    block: Seq<StatementView>,
    env: Seq<ScopeView>,
    scope: nat,
    depth: nat,
)
    ensures
        fails_at_runtime(eval_block(block, env, scope, depth)),
    decreases depth, block, block.len() + 1,
{
    lemma_statements_fail_at_runtime(block, 0, plain(ObjectView::Null), env, scope, depth);
}

/// Statements have a value or fail with an error of the evaluator.
pub proof fn lemma_statements_fail_at_runtime(
    statements: Seq<StatementView>,
    i: int,
    last: EvaluationView,
    env: Seq<ScopeView>,
    scope: nat,
    depth: nat,
)
    ensures
        fails_at_runtime(eval_statements(statements, i, last, env, scope, depth)),
    decreases depth, statements, statements.len() - i,
{
    if 0 <= i < statements.len() {
        match statements[i] {
            StatementView::Expression(expression) => {
                lemma_expression_fails_at_runtime(expression, env, scope, depth);
                let (result, env1) = eval_expression(expression, env, scope, depth);
                match result {
                    Err(_) => {},
                    Ok(value) => {
                        if !value.is_return_value {
                            lemma_statements_fail_at_runtime(
                                statements,
                                i + 1,
                                value,
                                env1,
                                scope,
                                depth,
                            );
                        }
                    },
                }
            },
            StatementView::Return { return_value } => {
                lemma_expression_fails_at_runtime(return_value, env, scope, depth);
            },
            StatementView::Let { identifier, value } => {
                lemma_expression_fails_at_runtime(value, env, scope, depth);
                let (result, env1) = eval_expression(value, env, scope, depth);
                match result {
                    Err(_) => {},
                    Ok(bound) => {
                        lemma_statements_fail_at_runtime(
                            statements,
                            i + 1,
                            plain(ObjectView::Null),
                            bind(env1, scope, identifier, bound.object),
                            scope,
                            depth,
                        );
                    },
                }
            },
        }
    }
}

/// Evaluation gives a value or an error of the evaluator, never one of the
/// parser.
pub proof fn lemma_program_fails_at_runtime(
    program: Seq<StatementView>,
    env: Seq<ScopeView>,
    depth: nat,
)
    ensures
        fails_at_runtime(eval_program(program, env, depth)),
{
    lemma_block_fails_at_runtime(program, env, 0, depth);
}

} // verus!
