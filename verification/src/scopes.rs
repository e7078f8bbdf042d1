//! No scope is dropped while anything still refers to it.
//!
//! A function value refers to the scope it was defined in, and a scope refers
//! to its parent. Evaluation drops the scope of a call once the call is over,
//! unless a function value was made in it. The laws here show that this never
//! leaves a reference to a scope that is gone: in a valid environment every
//! function value and every parent refers to a scope that is there and is
//! marked as remembered, and evaluation takes valid environments to valid
//! environments and gives valid values.

use vstd::prelude::*;
use crate::ast::{ExpressionView, StatementView};
use crate::environment::{bind, capture, lookup, push_scope, release, ScopeView};
use crate::object::{plain, EvaluationView, ObjectView};
use crate::semantics::{
    bind_parameters, eval_arguments, eval_block, eval_expression, eval_program, eval_statements,
};

verus! {

/// A value that refers to no scope, or to a scope of `env` that is marked as
/// remembered.
pub open spec fn valid_object(object: ObjectView, env: Seq<ScopeView>) -> bool {
    object matches ObjectView::Function { env: defined_in, .. } ==> defined_in < env.len()
        && env[defined_in as int].captured
}

/// Scope `s` of `env` refers to scopes that are there: its parent comes
/// before it and is marked as remembered, and so is every scope that one of
/// its values refers to.
pub open spec fn valid_scope(env: Seq<ScopeView>, s: int) -> bool {
    &&& env[s].parent matches Some(parent) ==> parent < s && env[parent as int].captured
    &&& forall|name: Seq<char>| #[trigger]
        env[s].store.contains_key(name) ==> valid_object(env[s].store[name], env)
}

/// An environment with a global scope, all of whose scopes are valid.
pub open spec fn valid_environment(env: Seq<ScopeView>) -> bool {
    &&& env.len() > 0
    &&& forall|s: int| 0 <= s < env.len() ==> #[trigger] valid_scope(env, s)
}

/// `after` has every scope that `before` has, with the same parent, and
/// remembers every scope that `before` remembers.
pub open spec fn keeps(before: Seq<ScopeView>, after: Seq<ScopeView>) -> bool {
    &&& before.len() <= after.len()
    &&& forall|s: int|
        0 <= s < before.len() ==> (#[trigger] after[s]).parent == before[s].parent && (
        before[s].captured ==> after[s].captured)
}

/// Every value of `objects` is valid in `env`.
pub open spec fn valid_objects(objects: Seq<ObjectView>, env: Seq<ScopeView>) -> bool {
    forall|i: int| 0 <= i < objects.len() ==> valid_object(#[trigger] objects[i], env)
}

/// A value stays valid where every scope it may refer to is kept.
pub proof fn lemma_valid_object_kept(object: ObjectView, before: Seq<ScopeView>, after: Seq<ScopeView>)
    requires
        valid_object(object, before),
        keeps(before, after),
    ensures
        valid_object(object, after),
{
    match object {
        ObjectView::Function { env: defined_in, .. } => {
            assert(after[defined_in as int].captured);
        },
        _ => {},
    }
}

/// What a name stands for in a valid environment is a valid value.
pub proof fn lemma_lookup_is_valid(env: Seq<ScopeView>, scope: nat, name: Seq<char>)
    requires
        valid_environment(env),
    ensures
        lookup(env, scope, name) matches Some(object) ==> valid_object(object, env),
    decreases scope,
{
    if scope < env.len() {
        assert(valid_scope(env, scope as int));
        if !env[scope as int].store.contains_key(name) {
            match env[scope as int].parent {
                Some(parent) => {
                    if parent < scope {
                        lemma_lookup_is_valid(env, parent, name);
                    }
                },
                None => {},
            }
        }
    }
}

/// Binding a valid value keeps an environment valid.
pub proof fn lemma_bind_is_valid(
    env: Seq<ScopeView>,
    scope: nat,
    name: Seq<char>,
    value: ObjectView,
)
    requires
        valid_environment(env),
        valid_object(value, env),
    ensures
        valid_environment(bind(env, scope, name, value)),
        keeps(env, bind(env, scope, name, value)),
{
    let after = bind(env, scope, name, value);
    assert(keeps(env, after));
    assert forall|s: int| 0 <= s < after.len() implies #[trigger] valid_scope(after, s) by {
        assert(valid_scope(env, s));
        assert forall|n: Seq<char>| #[trigger]
            after[s].store.contains_key(n) implies valid_object(after[s].store[n], after) by {
            if s == scope && n == name {
                lemma_valid_object_kept(value, env, after);
            } else {
                assert(env[s].store.contains_key(n));
                lemma_valid_object_kept(env[s].store[n], env, after);
            }
        }
    }
}

/// Marking a scope as remembered keeps an environment valid.
pub proof fn lemma_capture_is_valid(env: Seq<ScopeView>, scope: nat)
    requires
        valid_environment(env),
    ensures
        valid_environment(capture(env, scope)),
        keeps(env, capture(env, scope)),
{
    let after = capture(env, scope);
    assert(keeps(env, after));
    assert forall|s: int| 0 <= s < after.len() implies #[trigger] valid_scope(after, s) by {
        assert(valid_scope(env, s));
        assert forall|n: Seq<char>| #[trigger]
            after[s].store.contains_key(n) implies valid_object(after[s].store[n], after) by {
            assert(env[s].store.contains_key(n));
            lemma_valid_object_kept(env[s].store[n], env, after);
        }
    }
}

/// A new scope under a remembered scope keeps an environment valid.
pub proof fn lemma_push_scope_is_valid(env: Seq<ScopeView>, parent: nat)
    requires
        valid_environment(env),
        parent < env.len(),
        env[parent as int].captured,
    ensures
        valid_environment(push_scope(env, parent)),
        keeps(env, push_scope(env, parent)),
{
    let after = push_scope(env, parent);
    assert(keeps(env, after));
    assert forall|s: int| 0 <= s < after.len() implies #[trigger] valid_scope(after, s) by {
        if s < env.len() {
            assert(valid_scope(env, s));
            assert forall|n: Seq<char>| #[trigger]
                after[s].store.contains_key(n) implies valid_object(after[s].store[n], after) by {
                assert(env[s].store.contains_key(n));
                lemma_valid_object_kept(env[s].store[n], env, after);
            }
        }
    }
}

/// Dropping the scope of a call keeps an environment valid, and keeps every
/// scope that was there before the call; a value that was valid stays valid.
pub proof fn lemma_release_is_valid(env: Seq<ScopeView>, scope: nat, value: ObjectView)
    requires
        valid_environment(env),
        scope < env.len(),
        valid_object(value, env),
    ensures
        valid_environment(release(env, scope)),
        valid_object(value, release(env, scope)),
        forall|before: Seq<ScopeView>|
            before.len() <= scope && keeps(before, env) ==> #[trigger] keeps(
                before,
                release(env, scope),
            ),
{
    let after = release(env, scope);
    assert forall|s: int| 0 <= s < after.len() implies #[trigger] valid_scope(after, s) by {
        assert(valid_scope(env, s));
        assert forall|n: Seq<char>| #[trigger]
            after[s].store.contains_key(n) implies valid_object(after[s].store[n], after) by {
            assert(env[s].store.contains_key(n));
            assert(valid_object(env[s].store[n], env));
        }
    }
}

/// Binding valid arguments to the parameters keeps an environment valid.
pub proof fn lemma_bind_parameters_is_valid(
    env: Seq<ScopeView>,
    scope: nat,
    parameters: Seq<Seq<char>>,
    arguments: Seq<ObjectView>,
    i: int,
)
    requires
        valid_environment(env),
        valid_objects(arguments, env),
        0 <= i,
    ensures
        valid_environment(bind_parameters(env, scope, parameters, arguments, i)),
        keeps(env, bind_parameters(env, scope, parameters, arguments, i)),
    decreases parameters.len() - i,
{
    if 0 <= i < parameters.len() && i < arguments.len() {
        let env1 = bind(env, scope, parameters[i], arguments[i]);
        lemma_bind_is_valid(env, scope, parameters[i], arguments[i]);
        assert forall|k: int| 0 <= k < arguments.len() implies valid_object(
            #[trigger] arguments[k],
            env1,
        ) by {
            lemma_valid_object_kept(arguments[k], env, env1);
        }
        lemma_bind_parameters_is_valid(env1, scope, parameters, arguments, i + 1);
    }
}

/// Evaluating an expression takes a valid environment to a valid one that
/// keeps every scope, and gives a valid value.
pub proof fn lemma_eval_expression_is_valid(
    e: ExpressionView,
    env: Seq<ScopeView>,
    scope: nat,
    depth: nat,
)
    requires
        valid_environment(env),
        scope < env.len(),
    ensures
        ({
            let (result, after) = eval_expression(e, env, scope, depth);
            &&& valid_environment(after)
            &&& keeps(env, after)
            &&& result matches Ok(value) ==> valid_object(value.object, after)
        }),
    decreases depth, e, 0nat,
{
    match e {
        ExpressionView::IntegerLiteral(_) => {},
        ExpressionView::Boolean(_) => {},
        ExpressionView::Identifier(name) => {
            lemma_lookup_is_valid(env, scope, name);
        },
        ExpressionView::Prefix { operator, right } => {
            lemma_eval_expression_is_valid(*right, env, scope, depth);
        },
        ExpressionView::Infix { left, operator, right } => {
            lemma_eval_expression_is_valid(*left, env, scope, depth);
            let (left_result, env1) = eval_expression(*left, env, scope, depth);
            if left_result is Ok {
                lemma_eval_expression_is_valid(*right, env1, scope, depth);
            }
        },
        ExpressionView::If { condition, consequence, alternative } => {
            lemma_eval_expression_is_valid(*condition, env, scope, depth);
            let (condition_result, env1) = eval_expression(*condition, env, scope, depth);
            if condition_result is Ok {
                lemma_eval_block_is_valid(consequence, env1, scope, depth);
                match alternative {
                    Some(block) => {
                        lemma_eval_block_is_valid(block, env1, scope, depth);
                    },
                    None => {},
                }
            }
        },
        ExpressionView::FunctionLiteral { parameters, body } => {
            lemma_capture_is_valid(env, scope);
        },
        ExpressionView::FunctionCall { function, arguments } => {
            lemma_eval_expression_is_valid(*function, env, scope, depth);
            let (function_result, env1) = eval_expression(*function, env, scope, depth);
            match function_result {
                Err(_) => {},
                Ok(function_value) => match function_value.object {
                    ObjectView::Function { parameters, body, env: defined_in } => {
                        lemma_eval_arguments_is_valid(
                            arguments,
                            0,
                            Seq::empty(),
                            env1,
                            scope,
                            depth,
                        );
                        let (arguments_result, env2) = eval_arguments(
                            arguments,
                            0,
                            Seq::empty(),
                            env1,
                            scope,
                            depth,
                        );
                        match arguments_result {
                            Err(_) => {},
                            Ok(values) => {
                                if values.len() == parameters.len() && depth > 0 {
                                    lemma_valid_object_kept(function_value.object, env1, env2);
                                    let call_scope = env2.len();
                                    let pushed = push_scope(env2, defined_in);
                                    lemma_push_scope_is_valid(env2, defined_in);
                                    assert forall|k: int|
                                        0 <= k < values.len() implies valid_object(
                                        #[trigger] values[k],
                                        pushed,
                                    ) by {
                                        lemma_valid_object_kept(values[k], env2, pushed);
                                    }
                                    lemma_bind_parameters_is_valid(
                                        pushed,
                                        call_scope,
                                        parameters,
                                        values,
                                        0,
                                    );
                                    let env3 = bind_parameters(
                                        pushed,
                                        call_scope,
                                        parameters,
                                        values,
                                        0,
                                    );
                                    lemma_eval_block_is_valid(
                                        body,
                                        env3,
                                        call_scope,
                                        (depth - 1) as nat,
                                    );
                                    let (body_result, env4) = eval_block(
                                        body,
                                        env3,
                                        call_scope,
                                        (depth - 1) as nat,
                                    );
                                    let value = match body_result {
                                        Ok(v) => v.object,
                                        Err(_) => ObjectView::Null,
                                    };
                                    lemma_release_is_valid(env4, call_scope, value);
                                    assert(keeps(env, env4));
                                    assert(keeps(env, release(env4, call_scope)));
                                }
                            },
                        }
                    },
                    _ => {},
                },
            }
        },
    }
}

/// Evaluating arguments takes a valid environment to a valid one that keeps
/// every scope, and gives valid values.
pub proof fn lemma_eval_arguments_is_valid(
    arguments: Seq<ExpressionView>,
    i: int,
    acc: Seq<ObjectView>,
    env: Seq<ScopeView>,
    scope: nat,
    depth: nat,
)
    requires
        valid_environment(env),
        scope < env.len(),
        valid_objects(acc, env),
    ensures
        ({
            let (result, after) = eval_arguments(arguments, i, acc, env, scope, depth);
            &&& valid_environment(after)
            &&& keeps(env, after)
            &&& result matches Ok(values) ==> valid_objects(values, after)
        }),
    decreases depth, arguments, arguments.len() - i,
{
    if 0 <= i < arguments.len() {
        lemma_eval_expression_is_valid(arguments[i], env, scope, depth);
        let (result, env1) = eval_expression(arguments[i], env, scope, depth);
        match result {
            Err(_) => {},
            Ok(value) => {
                let acc1 = acc.push(value.object);
                assert forall|k: int| 0 <= k < acc1.len() implies valid_object(
                    #[trigger] acc1[k],
                    env1,
                ) by {
                    if k < acc.len() {
                        lemma_valid_object_kept(acc[k], env, env1);
                    }
                }
                lemma_eval_arguments_is_valid(arguments, i + 1, acc1, env1, scope, depth);
            },
        }
    }
}

/// Evaluating a block takes a valid environment to a valid one that keeps
/// every scope, and gives a valid value.
pub proof fn lemma_eval_block_is_valid(
    block: Seq<StatementView>,
    env: Seq<ScopeView>,
    scope: nat,
    depth: nat,
)
    requires
        valid_environment(env),
        scope < env.len(),
    ensures
        ({
            let (result, after) = eval_block(block, env, scope, depth);
            &&& valid_environment(after)
            &&& keeps(env, after)
            &&& result matches Ok(value) ==> valid_object(value.object, after)
        }),
    decreases depth, block, block.len() + 1,
{
    lemma_eval_statements_is_valid(block, 0, plain(ObjectView::Null), env, scope, depth);
}

/// Evaluating statements takes a valid environment to a valid one that keeps
/// every scope, and gives a valid value.
pub proof fn lemma_eval_statements_is_valid(
    statements: Seq<StatementView>,
    i: int,
    last: EvaluationView,
    env: Seq<ScopeView>,
    scope: nat,
    depth: nat,
)
    requires
        valid_environment(env),
        scope < env.len(),
        valid_object(last.object, env),
    ensures
        ({
            let (result, after) = eval_statements(statements, i, last, env, scope, depth);
            &&& valid_environment(after)
            &&& keeps(env, after)
            &&& result matches Ok(value) ==> valid_object(value.object, after)
        }),
    decreases depth, statements, statements.len() - i,
{
    if 0 <= i < statements.len() {
        match statements[i] {
            StatementView::Expression(expression) => {
                lemma_eval_expression_is_valid(expression, env, scope, depth);
                let (result, env1) = eval_expression(expression, env, scope, depth);
                match result {
                    Err(_) => {},
                    Ok(value) => {
                        if !value.is_return_value {
                            lemma_eval_statements_is_valid(
                                statements,
                                i + 1,
                                value,
                                env1,
                                scope,
                                depth,
                            );
                        }
                    },
                }
            },
            StatementView::Return { return_value } => {
                lemma_eval_expression_is_valid(return_value, env, scope, depth);
            },
            StatementView::Let { identifier, value } => {
                lemma_eval_expression_is_valid(value, env, scope, depth);
                let (result, env1) = eval_expression(value, env, scope, depth);
                match result {
                    Err(_) => {},
                    Ok(bound) => {
                        lemma_bind_is_valid(env1, scope, identifier, bound.object);
                        lemma_eval_statements_is_valid(
                            statements,
                            i + 1,
                            plain(ObjectView::Null),
                            bind(env1, scope, identifier, bound.object),
                            scope,
                            depth,
                        );
                    },
                }
            },
        }
    }
}

/// Evaluating a program takes a valid environment to a valid one, and gives
/// a valid value.
pub proof fn lemma_eval_program_is_valid(program: Seq<StatementView>, env: Seq<ScopeView>, depth: nat)
    requires
        valid_environment(env),
    ensures
        ({
            let (result, after) = eval_program(program, env, depth);
            &&& valid_environment(after)
            &&& keeps(env, after)
            &&& result matches Ok(value) ==> valid_object(value, after)
        }),
{
    lemma_eval_block_is_valid(program, env, 0, depth);
}

/// The environment that holds the global scope alone is valid.
pub proof fn lemma_fresh_environment_is_valid()
    ensures
        valid_environment(crate::environment::fresh_environment()),
{
    let env = crate::environment::fresh_environment();
    assert forall|s: int| 0 <= s < env.len() implies #[trigger] valid_scope(env, s) by {}
}

} // verus!
