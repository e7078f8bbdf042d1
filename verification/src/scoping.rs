//! Lexical scoping: what names stand for inside a call.
//!
//! A call evaluates the function's body in a new scope that holds the
//! parameters and whose parent is the scope the function was defined in. The
//! laws here say what that means for lookups, without a word about the scope
//! that makes the call: where a function is called from has no part in what
//! its names stand for.

use vstd::prelude::*;
use crate::environment::{bind, lemma_lookup_agrees, lookup, push_scope, ScopeView};
use crate::object::ObjectView;
use crate::semantics::bind_parameters;

verus! {

/// The environment in which the body of a call is evaluated: `env` with one
/// more scope, whose parent is `defined_in` and which binds the parameters to
/// the arguments.
pub open spec fn call_environment(
    env: Seq<ScopeView>,
    defined_in: nat,
    parameters: Seq<Seq<char>>,
    arguments: Seq<ObjectView>,
) -> Seq<ScopeView> {
    bind_parameters(push_scope(env, defined_in), env.len(), parameters, arguments, 0)
}

/// Whether `name` is one of `parameters[from..]`.
pub open spec fn is_parameter(parameters: Seq<Seq<char>>, from: int, name: Seq<char>) -> bool {
    exists|j: int| from <= j < parameters.len() && #[trigger] parameters[j] == name
}

/// Binding the parameters from position `i` on changes the bindings of scope
/// `scope` and nothing else: the names bound there are those bound before and
/// the parameters; a parameter stands for its argument unless a later
/// parameter has its name; and every other name is as it was.
proof fn lemma_bind_parameters(
    env: Seq<ScopeView>,
    scope: nat,
    parameters: Seq<Seq<char>>,
    arguments: Seq<ObjectView>,
    i: int,
)
    requires
        scope < env.len(),
        parameters.len() == arguments.len(),
        0 <= i <= parameters.len(),
    ensures
        bind_parameters(env, scope, parameters, arguments, i).len() == env.len(),
        forall|s: int|
            0 <= s < env.len() && s != scope ==> bind_parameters(
                env,
                scope,
                parameters,
                arguments,
                i,
            )[s] == env[s],
        bind_parameters(env, scope, parameters, arguments, i)[scope as int].parent
            == env[scope as int].parent,
        bind_parameters(env, scope, parameters, arguments, i)[scope as int].captured
            == env[scope as int].captured,
        forall|name: Seq<char>|
            #[trigger] bind_parameters(
                env,
                scope,
                parameters,
                arguments,
                i,
            )[scope as int].store.contains_key(name) <==> (env[scope as int].store.contains_key(
                name,
            ) || is_parameter(
                parameters,
                i,
                name,
            )),
        forall|name: Seq<char>|
            !is_parameter(parameters, i, name) && env[scope as int].store.contains_key(name)
                ==> bind_parameters(env, scope, parameters, arguments, i)[scope as int].store[name]
                == env[scope as int].store[name],
        forall|j: int|
            i <= j < parameters.len() && !is_parameter(parameters, j + 1, parameters[j])
                ==> bind_parameters(
                env,
                scope,
                parameters,
                arguments,
                i,
            )[scope as int].store[#[trigger] parameters[j]] == arguments[j],
    decreases parameters.len() - i,
{
    if i < parameters.len() {
        let env1 = bind(env, scope, parameters[i], arguments[i]);
        lemma_bind_parameters(env1, scope, parameters, arguments, i + 1);
        let after = bind_parameters(env, scope, parameters, arguments, i);
        assert(after == bind_parameters(env1, scope, parameters, arguments, i + 1));
        assert forall|s: int| 0 <= s < env.len() && s != scope implies after[s] == env[s] by {
            assert(env1[s] == env[s]);
        }
        assert forall|name: Seq<char>|
            #[trigger] after[scope as int].store.contains_key(name) <==> (env[scope as int].store.contains_key(
                name,
            ) || is_parameter(parameters, i, name)) by {
            if is_parameter(parameters, i + 1, name) {
                let j = choose|j: int| i + 1 <= j < parameters.len() && parameters[j] == name;
                assert(i <= j < parameters.len() && parameters[j] == name);
            }
            if is_parameter(parameters, i, name) {
                let j = choose|j: int| i <= j < parameters.len() && parameters[j] == name;
                if j > i {
                    assert(i + 1 <= j < parameters.len() && parameters[j] == name);
                }
            }
            assert(parameters[i] == name ==> is_parameter(parameters, i, name));
        }
        assert forall|name: Seq<char>|
            !is_parameter(parameters, i, name) && env[scope as int].store.contains_key(
                name,
            ) implies after[scope as int].store[name] == env[scope as int].store[name] by {
            if is_parameter(parameters, i + 1, name) {
                let j = choose|j: int| i + 1 <= j < parameters.len() && parameters[j] == name;
                assert(i <= j < parameters.len() && parameters[j] == name);
            }
            assert(parameters[i] != name);
        }
        assert forall|j: int|
            i <= j < parameters.len() && !is_parameter(
                parameters,
                j + 1,
                parameters[j],
            ) implies after[scope as int].store[#[trigger] parameters[j]] == arguments[j] by {
            if j == i {
                assert(env1[scope as int].store.contains_key(parameters[i]));
            }
        }
    } else {
        let after = bind_parameters(env, scope, parameters, arguments, i);
        assert(after == env);
        assert forall|name: Seq<char>|
            #[trigger] after[scope as int].store.contains_key(name) <==> (env[scope as int].store.contains_key(
                name,
            ) || is_parameter(parameters, i, name)) by {
            assert(!is_parameter(parameters, i, name));
        }
    }
}

/// In the scope of a call a parameter stands for its argument: for the last
/// argument given under its name, where the name occurs more than once.
pub proof fn lemma_parameters_stand_for_arguments(
    env: Seq<ScopeView>,
    defined_in: nat,
    parameters: Seq<Seq<char>>,
    arguments: Seq<ObjectView>,
    i: int,
)
    requires
        parameters.len() == arguments.len(),
        0 <= i < parameters.len(),
        !is_parameter(parameters, i + 1, parameters[i]),
    ensures
        lookup(
            call_environment(env, defined_in, parameters, arguments),
            env.len(),
            parameters[i],
        ) == Some(arguments[i]),
{
    let pushed = push_scope(env, defined_in);
    lemma_bind_parameters(pushed, env.len(), parameters, arguments, 0);
    assert(is_parameter(parameters, 0, parameters[i]));
}

/// In the scope of a call a name that is no parameter stands for what it
/// stands for in the scope where the function was defined. The scope that
/// makes the call does not occur: names are resolved where a function was
/// written, not where it is called.
pub proof fn lemma_free_names_resolve_where_defined(
    env: Seq<ScopeView>,
    defined_in: nat,
    parameters: Seq<Seq<char>>,
    arguments: Seq<ObjectView>,
    name: Seq<char>,
)
    requires
        defined_in < env.len(),
        parameters.len() == arguments.len(),
        !is_parameter(parameters, 0, name),
    ensures
        lookup(call_environment(env, defined_in, parameters, arguments), env.len(), name)
            == lookup(env, defined_in, name),
{
    let pushed = push_scope(env, defined_in);
    let inside = call_environment(env, defined_in, parameters, arguments);
    lemma_bind_parameters(pushed, env.len(), parameters, arguments, 0);
    assert(!pushed[env.len() as int].store.contains_key(name));
    assert(!inside[env.len() as int].store.contains_key(name));
    assert(inside[env.len() as int].parent == Some(defined_in));
    assert forall|s: int| 0 <= s <= defined_in && s < inside.len() implies inside[s] == env[s] by {
        assert(pushed[s] == env[s]);
    }
    lemma_lookup_agrees(inside, env, defined_in, name);
}

} // verus!
