//! The evaluator: walks a syntax tree in an environment and gives its value.
//!
//! Every function here computes exactly the function of the same name in
//! [`crate::semantics`], and leaves the environment as that function says.

use vstd::prelude::*;
use crate::ast::{
    duplicate_names, expressions_view, names_view, statements_view, Block, Expression,
    InfixOperator, PrefixOperator, Program, Statement,
};
use crate::environment::{Environment, ScopeView};
use crate::error::{Error, ErrorView};
use crate::object::{object_text, plain, EvaluationValue, Object, ObjectView};
use crate::semantics;
use crate::semantics::Outcome;

verus! {

/// The number of calls that may be nested; a call beyond it is an error.
pub const MAX_CALL_DEPTH: usize = 200;

/// Whether `result`, with the environment left as `env_after`, is the outcome
/// `expected`.
pub open spec fn results_in<T: View>(
    result: Result<T, Error>,
    env_after: Seq<ScopeView>,
    expected: Outcome<T::V>,
) -> bool {
    let (expected_result, expected_env) = expected;
    &&& env_after == expected_env
    &&& match expected_result {
        Ok(value) => result is Ok && result->Ok_0@ == value,
        Err(e) => result is Err && result->Err_0@ == e,
    }
}

/// Whether `result` is the value or the error `expected`.
pub open spec fn gives<T: View>(result: Result<T, Error>, expected: Result<T::V, ErrorView>) -> bool {
    match expected {
        Ok(value) => result is Ok && result->Ok_0@ == value,
        Err(e) => result is Err && result->Err_0@ == e,
    }
}

/// The mathematical values of a run of objects.
pub open spec fn objects_view(objects: Seq<Object>) -> Seq<ObjectView> {
    Seq::new(objects.len(), |i: int| objects[i]@)
}

/// Evaluates a program in the global scope of `env`.
pub fn eval_program(program: &Program, env: &mut Environment) -> (result: Result<Object, Error>)
    requires
        old(env).well_formed(),
    ensures
        final(env).well_formed(),
        results_in(
            result,
            final(env)@,
            semantics::eval_program(program@, old(env)@, MAX_CALL_DEPTH as nat),
        ),
{
    match eval_statements(&program.statements, env, 0, MAX_CALL_DEPTH) {
        Ok(evaluation) => Ok(evaluation.object),
        Err(e) => Err(e),
    }
}

/// Evaluates a program in the global scope of `env` and gives its value as
/// text.
pub fn eval_program_string_output(program: &Program, env: &mut Environment) -> (result: Result<
    String,
    Error,
>)
    requires
        old(env).well_formed(),
    ensures
        final(env).well_formed(),
        ({
            let (expected, env_after) = semantics::eval_program(
                program@,
                old(env)@,
                MAX_CALL_DEPTH as nat,
            );
            &&& final(env)@ == env_after
            &&& match expected {
                Ok(value) => result is Ok && result->Ok_0@ == object_text(value),
                Err(e) => result is Err && result->Err_0@ == e,
            }
        }),
{
    match eval_program(program, env) {
        Ok(evaluation) => Ok(evaluation.to_string()),
        Err(e) => Err(e),
    }
}

/// Evaluates statements in order in scope `scope`, up to the first `return`.
pub fn eval_statements(
    statements: &Vec<Statement>,
    env: &mut Environment,
    scope: usize,
    depth: usize,
) -> (result: Result<EvaluationValue, Error>)
    requires
        scope < old(env)@.len(),
    ensures
        final(env)@.len() >= old(env)@.len(),
        results_in(
            result,
            final(env)@,
            semantics::eval_block(
                statements_view(statements@),
                old(env)@,
                scope as nat,
                depth as nat,
            ),
        ),
    decreases depth, statements, 0nat,
{
    let ghost views = statements_view(statements@);
    let ghost env0 = env@;
    let mut evaluation: EvaluationValue = EvaluationValue::default();
    let mut i: usize = 0;
    while i < statements.len()
        invariant
            i <= statements@.len(),
            views == statements_view(statements@),
            scope < env@.len(),
            env@.len() >= env0.len(),
            env0 == old(env)@,
            semantics::eval_block(views, env0, scope as nat, depth as nat)
                == semantics::eval_statements(
                views,
                i as int,
                evaluation@,
                env@,
                scope as nat,
                depth as nat,
            ),
        decreases statements@.len() - i,
    {
        assert(views[i as int] == statements@[i as int]@);
        match &statements[i] {
            Statement::Expression(expr) => {
                evaluation = match eval_expression(expr, env, scope, depth) {
                    Ok(value) => value,
                    Err(e) => {
                        return Err(e);
                    },
                };
                if evaluation.is_return_value {
                    return Ok(evaluation);
                }
            },
            Statement::Return { return_value } => {
                return match eval_expression(return_value, env, scope, depth) {
                    Ok(value) => Ok(EvaluationValue { object: value.object, is_return_value: true }),
                    Err(e) => Err(e),
                };
            },
            Statement::Let { identifier, value } => {
                let bound = match eval_expression(value, env, scope, depth) {
                    Ok(value) => value,
                    Err(e) => {
                        return Err(e);
                    },
                };
                env.bind(scope, identifier.clone(), bound.object);
                evaluation = EvaluationValue::default();
            },
        }
        i = i + 1;
    }
    Ok(evaluation)
}

/// Evaluates an expression in scope `scope`.
pub fn eval_expression(
    expression: &Expression,
    env: &mut Environment,
    scope: usize,
    depth: usize,
) -> (result: Result<EvaluationValue, Error>)
    requires
        scope < old(env)@.len(),
    ensures
        final(env)@.len() >= old(env)@.len(),
        results_in(
            result,
            final(env)@,
            semantics::eval_expression(expression@, old(env)@, scope as nat, depth as nat),
        ),
    decreases depth, expression, 0nat,
{
    match expression {
        Expression::IntegerLiteral(value) => Ok(plain_value(Object::Integer(*value))),
        Expression::Boolean(value) => Ok(plain_value(Object::Boolean(*value))),
        Expression::Identifier(name) => match env.lookup(scope, name.as_str()) {
            Some(object) => Ok(plain_value(object)),
            None => Err(Error::IdentifierNotFound(name.clone())),
        },
        Expression::Prefix { operator, right } => {
            let right_eval = match eval_expression(right, env, scope, depth) {
                Ok(value) => value,
                Err(e) => {
                    return Err(e);
                },
            };
            eval_prefix_expression(operator, right_eval.object)
        },
        Expression::Infix { left, operator, right } => {
            let left_eval = match eval_expression(left, env, scope, depth) {
                Ok(value) => value,
                Err(e) => {
                    return Err(e);
                },
            };
            let right_eval = match eval_expression(right, env, scope, depth) {
                Ok(value) => value,
                Err(e) => {
                    return Err(e);
                },
            };
            eval_infix_expression(operator, left_eval.object, right_eval.object)
        },
        Expression::If { condition, consequence, alternative } => {
            let condition_eval = match eval_expression(condition, env, scope, depth) {
                Ok(value) => value.object,
                Err(e) => {
                    return Err(e);
                },
            };
            if condition_eval.is_truthy() {
                eval_block(consequence, env, scope, depth)
            } else {
                match alternative {
                    Some(alternative) => eval_block(alternative, env, scope, depth),
                    None => Ok(plain_value(Object::Null)),
                }
            }
        },
        Expression::FunctionLiteral { parameters, body } => {
            env.capture(scope);
            Ok(
                plain_value(
                    Object::Function {
                        parameters: duplicate_names(parameters),
                        body: body.duplicate(),
                        env: scope,
                    },
                ),
            )
        },
        Expression::FunctionCall { function, arguments } => {
            let callee = match eval_expression(function, env, scope, depth) {
                Ok(value) => value.object,
                Err(e) => {
                    return Err(e);
                },
            };
            match callee {
                Object::Function { parameters, body, env: defined_in } => {
                    let values = match eval_arguments(arguments, env, scope, depth) {
                        Ok(values) => values,
                        Err(e) => {
                            return Err(e);
                        },
                    };
                    if values.len() != parameters.len() {
                        return Err(
                            Error::WrongArgumentCount {
                                expected: parameters.len(),
                                actual: values.len(),
                            },
                        );
                    }
                    if depth == 0 {
                        return Err(Error::RecursionLimitExceeded);
                    }
                    let call_scope = env.push_scope(defined_in);
                    bind_parameters(env, call_scope, &parameters, values);
                    let body_result = eval_block(&body, env, call_scope, depth - 1);
                    env.release(call_scope);
                    match body_result {
                        Ok(value) => Ok(plain_value(value.object)),
                        Err(e) => Err(e),
                    }
                },
                other => Err(
                    Error::UnknownOperator(
                        String::from_str("call ").concat(other.to_type_string().as_str()),
                    ),
                ),
            }
        },
    }
}

/// An evaluation that is not the value of a `return`.
fn plain_value(object: Object) -> (evaluation: EvaluationValue)
    ensures
        evaluation@ == plain(object@),
{
    EvaluationValue::from(object)
}

/// Evaluates the arguments of a call from left to right.
pub fn eval_arguments(
    arguments: &Vec<Expression>,
    env: &mut Environment,
    scope: usize,
    depth: usize,
) -> (result: Result<Vec<Object>, Error>)
    requires
        scope < old(env)@.len(),
    ensures
        final(env)@.len() >= old(env)@.len(),
        ({
            let (expected, env_after) = semantics::eval_arguments(
                expressions_view(arguments@),
                0,
                Seq::empty(),
                old(env)@,
                scope as nat,
                depth as nat,
            );
            &&& final(env)@ == env_after
            &&& match expected {
                Ok(values) => result is Ok && objects_view(result->Ok_0@) == values,
                Err(e) => result is Err && result->Err_0@ == e,
            }
        }),
    decreases depth, arguments, 0nat,
{
    let ghost views = expressions_view(arguments@);
    let ghost env0 = env@;
    let mut values: Vec<Object> = Vec::new();
    assert(objects_view(values@) =~= Seq::<ObjectView>::empty());
    let mut i: usize = 0;
    while i < arguments.len()
        invariant
            i <= arguments@.len(),
            views == expressions_view(arguments@),
            scope < env@.len(),
            env@.len() >= env0.len(),
            env0 == old(env)@,
            semantics::eval_arguments(views, 0, Seq::empty(), env0, scope as nat, depth as nat)
                == semantics::eval_arguments(
                views,
                i as int,
                objects_view(values@),
                env@,
                scope as nat,
                depth as nat,
            ),
        decreases arguments@.len() - i,
    {
        assert(views[i as int] == arguments@[i as int]@);
        let ghost before = objects_view(values@);
        let value = match eval_expression(&arguments[i], env, scope, depth) {
            Ok(value) => value.object,
            Err(e) => {
                return Err(e);
            },
        };
        values.push(value);
        assert(objects_view(values@) =~= before.push(value@));
        i = i + 1;
    }
    Ok(values)
}

/// Binds each parameter to its argument in scope `scope`, in order.
fn bind_parameters(env: &mut Environment, scope: usize, parameters: &Vec<String>, values: Vec<Object>)
    requires
        scope < old(env)@.len(),
        values@.len() == parameters@.len(),
    ensures
        final(env)@.len() == old(env)@.len(),
        final(env)@ == semantics::bind_parameters(
            old(env)@,
            scope as nat,
            names_view(parameters@),
            objects_view(values@),
            0,
        ),
{
    let ghost names = names_view(parameters@);
    let ghost objects = objects_view(values@);
    let ghost env0 = env@;
    let mut values = values;
    let mut i: usize = 0;
    while i < parameters.len()
        invariant
            i <= parameters@.len(),
            names == names_view(parameters@),
            objects.len() == names.len(),
            values@.len() == parameters@.len() - i,
            forall|k: int| 0 <= k < values@.len() ==> (#[trigger] values@[k])@ == objects[i + k],
            scope < env@.len(),
            env@.len() == env0.len(),
            semantics::bind_parameters(env0, scope as nat, names, objects, 0)
                == semantics::bind_parameters(env@, scope as nat, names, objects, i as int),
        decreases parameters@.len() - i,
    {
        let value = values.remove(0);
        env.bind(scope, parameters[i].clone(), value);
        i = i + 1;
    }
}

/// Evaluates a prefix expression.
pub fn eval_prefix_expression(operator: &PrefixOperator, right: Object) -> (result: Result<
    EvaluationValue,
    Error,
>)
    ensures
        gives(result, semantics::as_evaluation(semantics::eval_prefix_expression(*operator, right@))),
{
    match operator {
        PrefixOperator::BANG => Ok(eval_bang_prefix_operator(right)),
        PrefixOperator::NEGATE => eval_minus_prefix_operator(right),
    }
}

/// Evaluates `!` on a value.
pub fn eval_bang_prefix_operator(obj: Object) -> (evaluation: EvaluationValue)
    ensures
        evaluation@ == plain(semantics::eval_bang_prefix_operator(obj@)),
{
    match obj {
        Object::Boolean(val) => plain_value(Object::Boolean(!val)),
        Object::Integer(val) => {
            if val == 0 {
                plain_value(Object::Boolean(true))
            } else {
                plain_value(Object::Boolean(false))
            }
        },
        Object::Null => plain_value(Object::Boolean(true)),
        Object::Function { .. } => plain_value(Object::Boolean(false)),
    }
}

/// Evaluates `-` on a value.
pub fn eval_minus_prefix_operator(obj: Object) -> (result: Result<EvaluationValue, Error>)
    ensures
        gives(result, semantics::as_evaluation(semantics::eval_minus_prefix_operator(obj@))),
{
    match obj {
        Object::Integer(val) => match 0i64.checked_sub(val) {
            Some(negated) => Ok(plain_value(Object::Integer(negated))),
            None => Err(Error::IntegerOverflow),
        },
        _ => Err(
            Error::UnknownOperator(String::from_str("-").concat(obj.to_type_string().as_str())),
        ),
    }
}

/// Evaluates an infix expression.
pub fn eval_infix_expression(operator: &InfixOperator, left: Object, right: Object) -> (result:
    Result<EvaluationValue, Error>)
    ensures
        gives(
            result,
            semantics::as_evaluation(semantics::eval_infix_expression(*operator, left@, right@)),
        ),
{
    match (left, right) {
        (Object::Integer(a), Object::Integer(b)) => eval_integer_infix_expression(operator, a, b),
        (Object::Boolean(a), Object::Boolean(b)) => eval_boolean_infix_expression(operator, a, b),
        (left, right) => Err(
            Error::TypeMismatch {
                left: left.to_type_string(),
                operator: operator.to_string(),
                right: right.to_type_string(),
            },
        ),
    }
}

/// Evaluates an infix operator on two integers.
pub fn eval_integer_infix_expression(operator: &InfixOperator, left: i64, right: i64) -> (result:
    Result<EvaluationValue, Error>)
    ensures
        gives(
            result,
            semantics::as_evaluation(
                semantics::eval_integer_infix_expression(*operator, left, right),
            ),
        ),
{
    match operator {
        InfixOperator::PLUS => integer_value(left.checked_add(right)),
        InfixOperator::MINUS => integer_value(left.checked_sub(right)),
        InfixOperator::MULTIPLY => integer_value(left.checked_mul(right)),
        InfixOperator::DIVIDE => {
            if right == 0 {
                Err(Error::DivisionByZero)
            } else {
                integer_value(left.checked_div(right))
            }
        },
        InfixOperator::LESSTHAN => Ok(plain_value(Object::Boolean(left < right))),
        InfixOperator::GREATERTHAN => Ok(plain_value(Object::Boolean(left > right))),
        InfixOperator::EQUAL => Ok(plain_value(Object::Boolean(left == right))),
        InfixOperator::NOTEQUAL => Ok(plain_value(Object::Boolean(left != right))),
    }
}

/// An integer where the arithmetic stayed within 64 bits.
fn integer_value(checked: Option<i64>) -> (result: Result<EvaluationValue, Error>)
    ensures
        match checked {
            Some(value) => result is Ok && result->Ok_0@ == plain(ObjectView::Integer(value)),
            None => result is Err && result->Err_0@ == ErrorView::IntegerOverflow,
        },
{
    match checked {
        Some(value) => Ok(plain_value(Object::Integer(value))),
        None => Err(Error::IntegerOverflow),
    }
}

/// Evaluates an infix operator on two booleans.
pub fn eval_boolean_infix_expression(operator: &InfixOperator, left: bool, right: bool) -> (result:
    Result<EvaluationValue, Error>)
    ensures
        gives(
            result,
            semantics::as_evaluation(
                semantics::eval_boolean_infix_expression(*operator, left, right),
            ),
        ),
{
    match operator {
        InfixOperator::EQUAL => Ok(plain_value(Object::Boolean(left == right))),
        InfixOperator::NOTEQUAL => Ok(plain_value(Object::Boolean(left != right))),
        _ => Err(
            Error::TypeMismatch {
                left: String::from_str("BOOLEAN"),
                operator: operator.to_string(),
                right: String::from_str("BOOLEAN"),
            },
        ),
    }
}

/// Evaluates a block in the scope it stands in, and gives the value of the
/// last statement evaluated.
pub fn eval_block(block: &Block, env: &mut Environment, scope: usize, depth: usize) -> (result:
    Result<EvaluationValue, Error>)
    requires
        scope < old(env)@.len(),
    ensures
        final(env)@.len() >= old(env)@.len(),
        results_in(
            result,
            final(env)@,
            semantics::eval_block(block@, old(env)@, scope as nat, depth as nat),
        ),
    decreases depth, block, 0nat,
{
    eval_statements(&block.statements, env, scope, depth)
}

} // verus!
