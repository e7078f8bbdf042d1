//! The binding store: scopes that map names to values, chained for lexical
//! scoping.
//!
//! An [`Environment`] holds every scope of an evaluation. A scope is known by
//! its index; scope 0 is the global one. A function value remembers the index
//! of the scope it was defined in, and a call makes a new scope whose parent
//! is that scope, so names are resolved where the function was written, not
//! where it is called.

use vstd::prelude::*;
use vstd::hash_map::StringHashMap;
use crate::error::{Error, ErrorView};
use crate::object::{Object, ObjectView};

verus! {

/// One scope: its own bindings, the scope that lookups go on to, and whether
/// a function value remembers it.
pub struct Scope {
    pub(crate) store: StringHashMap<Object>,
    pub(crate) parent: Option<usize>,
    pub(crate) captured: bool,
}

/// The mathematical value of a [`Scope`].
pub struct ScopeView {
    pub store: Map<Seq<char>, ObjectView>,
    pub parent: Option<nat>,
    pub captured: bool,
}

/// The mathematical values of the objects of a store.
pub open spec fn store_view(store: Map<Seq<char>, Object>) -> Map<Seq<char>, ObjectView> {
    store.map_values(|o: Object| o@)
}

impl View for Scope {
    type V = ScopeView;

    open(crate) spec fn view(&self) -> ScopeView {
        ScopeView {
            store: store_view(self.store@),
            parent: match self.parent {
                Some(p) => Some(p as nat),
                None => None,
            },
            captured: self.captured,
        }
    }
}

/// All the scopes of an evaluation.
pub struct Environment {
    pub(crate) scopes: Vec<Scope>,
}

impl View for Environment {
    type V = Seq<ScopeView>;

    open(crate) spec fn view(&self) -> Seq<ScopeView> {
        Seq::new(self.scopes@.len(), |i: int| self.scopes@[i]@)
    }
}

/// An environment that holds the global scope alone, with nothing bound.
pub open spec fn fresh_environment() -> Seq<ScopeView> {
    seq![ScopeView { store: Map::empty(), parent: None, captured: false }]
}

/// The value that `name` stands for in scope `scope`: its own binding, else
/// that of the nearest enclosing scope that binds it.
pub open spec fn lookup(env: Seq<ScopeView>, scope: nat, name: Seq<char>) -> Option<ObjectView>
    decreases scope,
{
    if scope >= env.len() {
        None
    } else if env[scope as int].store.contains_key(name) {
        Some(env[scope as int].store[name])
    } else {
        match env[scope as int].parent {
            Some(parent) => if parent < scope {
                lookup(env, parent, name)
            } else {
                None
            },
            None => None,
        }
    }
}

/// `env` with `name` bound to `value` in scope `scope`; other scopes stay as
/// they are.
pub open spec fn bind(env: Seq<ScopeView>, scope: nat, name: Seq<char>, value: ObjectView) -> Seq<
    ScopeView,
> {
    if scope < env.len() {
        env.update(
            scope as int,
            ScopeView {
                store: env[scope as int].store.insert(name, value),
                parent: env[scope as int].parent,
                captured: env[scope as int].captured,
            },
        )
    } else {
        env
    }
}

/// `env` with one more scope, empty, whose parent is `parent`.
pub open spec fn push_scope(env: Seq<ScopeView>, parent: nat) -> Seq<ScopeView> {
    env.push(ScopeView { store: Map::empty(), parent: Some(parent), captured: false })
}

/// `env` with scope `scope` marked as remembered by a function value.
pub open spec fn capture(env: Seq<ScopeView>, scope: nat) -> Seq<ScopeView> {
    if scope < env.len() {
        env.update(
            scope as int,
            ScopeView {
                store: env[scope as int].store,
                parent: env[scope as int].parent,
                captured: true,
            },
        )
    } else {
        env
    }
}

/// `env` without scope `scope`, where that is the scope of a call, the last
/// scope, and no function value remembers it; otherwise `env`. The global
/// scope is never dropped.
pub open spec fn release(env: Seq<ScopeView>, scope: nat) -> Seq<ScopeView> {
    if 0 < scope && scope + 1 == env.len() && !env[scope as int].captured {
        env.drop_last()
    } else {
        env
    }
}

/// A name bound in a scope stands there for what it was bound to.
pub proof fn lemma_lookup_after_bind(
    env: Seq<ScopeView>,
    scope: nat,
    name: Seq<char>,
    value: ObjectView,
)
    requires
        scope < env.len(),
    ensures
        lookup(bind(env, scope, name, value), scope, name) == Some(value),
{
}

/// Lookups from a scope read that scope and the scopes before it, and no
/// others: two environments that agree up to `scope` resolve every name alike
/// from there.
pub proof fn lemma_lookup_agrees(
    env1: Seq<ScopeView>,
    env2: Seq<ScopeView>,
    scope: nat,
    name: Seq<char>,
)
    requires
        scope < env1.len() <==> scope < env2.len(),
        forall|s: int| 0 <= s <= scope && s < env1.len() ==> env1[s] == env2[s],
        scope < env1.len() ==> env1.len() <= env2.len() || scope < env2.len(),
    ensures
        lookup(env1, scope, name) == lookup(env2, scope, name),
    decreases scope,
{
    if scope < env1.len() {
        assert(env1[scope as int] == env2[scope as int]);
        if !env1[scope as int].store.contains_key(name) {
            match env1[scope as int].parent {
                Some(parent) => {
                    if parent < scope {
                        lemma_lookup_agrees(env1, env2, parent, name);
                    }
                },
                None => {},
            }
        }
    }
}

/// Binding one name leaves every other name as it was, from whatever scope
/// it is looked up.
pub proof fn lemma_bind_leaves_other_names(
    env: Seq<ScopeView>,
    target: nat,
    bound: Seq<char>,
    value: ObjectView,
    scope: nat,
    name: Seq<char>,
)
    requires
        name != bound,
    ensures
        lookup(bind(env, target, bound, value), scope, name) == lookup(env, scope, name),
    decreases scope,
{
    let after = bind(env, target, bound, value);
    if scope < env.len() {
        if !env[scope as int].store.contains_key(name) {
            match env[scope as int].parent {
                Some(parent) => {
                    if parent < scope {
                        lemma_bind_leaves_other_names(env, target, bound, value, parent, name);
                    }
                },
                None => {},
            }
        }
    }
}

/// A scope's own binding hides those of the scopes around it: whatever is
/// bound in another scope, under the same name or not, the name still stands
/// for the scope's own value.
pub proof fn lemma_own_binding_shadows(
    env: Seq<ScopeView>,
    target: nat,
    bound: Seq<char>,
    value: ObjectView,
    scope: nat,
    name: Seq<char>,
)
    requires
        scope < env.len(),
        env[scope as int].store.contains_key(name),
        target != scope,
    ensures
        lookup(bind(env, target, bound, value), scope, name) == Some(
            env[scope as int].store[name],
        ),
        lookup(env, scope, name) == Some(env[scope as int].store[name]),
{
}

impl Environment {
    /// The global scope is there.
    pub open spec fn well_formed(&self) -> bool {
        self@.len() > 0
    }

    /// An environment with the global scope alone and nothing bound.
    pub fn new() -> (env: Self)
        ensures
            env@ == fresh_environment(),
            env.well_formed(),
    {
        let mut scopes: Vec<Scope> = Vec::new();
        scopes.push(Scope { store: StringHashMap::new(), parent: None, captured: false });
        let env = Self { scopes };
        assert(env@[0].store =~= Map::<Seq<char>, ObjectView>::empty());
        assert(env@ =~= fresh_environment());
        env
    }

    /// The number of scopes.
    pub fn scope_count(&self) -> (n: usize)
        ensures
            n == self@.len(),
    {
        self.scopes.len()
    }

    /// The value bound to `name` in the global scope.
    pub fn get(&self, name: String) -> (result: Result<Object, Error>)
        ensures
            match lookup(self@, 0, name@) {
                Some(value) => result is Ok && result->Ok_0@ == value,
                None => result is Err && result->Err_0@ == ErrorView::IdentifierNotFound(name@),
            },
    {
        match self.lookup(0, name.as_str()) {
            Some(value) => Ok(value),
            None => Err(Error::IdentifierNotFound(name)),
        }
    }

    /// Binds `name` in the global scope, and gives the value that it was
    /// bound to there before.
    pub fn set(&mut self, name: String, obj: Object) -> (previous: Option<Object>)
        requires
            old(self).well_formed(),
        ensures
            final(self)@ == bind(old(self)@, 0, name@, obj@),
            final(self).well_formed(),
            match previous {
                Some(value) => old(self)@[0].store.contains_key(name@) && value@ == old(self)@[0].store[name@],
                None => !old(self)@[0].store.contains_key(name@),
            },
    {
        let previous = match self.scopes[0].store.get(name.as_str()) {
            Some(value) => Some(value.duplicate()),
            None => None,
        };
        self.bind(0, name, obj);
        previous
    }

    /// The value that `name` stands for in scope `scope`.
    pub fn lookup(&self, scope: usize, name: &str) -> (value: Option<Object>)
        ensures
            match lookup(self@, scope as nat, name@) {
                Some(expected) => value is Some && value->0@ == expected,
                None => value is None,
            },
    {
        let mut current = scope;
        loop
            invariant
                lookup(self@, scope as nat, name@) == lookup(self@, current as nat, name@),
            decreases current,
        {
            if current >= self.scopes.len() {
                return None;
            }
            match self.scopes[current].store.get(name) {
                Some(value) => {
                    return Some(value.duplicate());
                },
                None => {},
            }
            match self.scopes[current].parent {
                Some(parent) => {
                    if parent < current {
                        current = parent;
                    } else {
                        return None;
                    }
                },
                None => {
                    return None;
                },
            }
        }
    }

    /// Binds `name` to `obj` in scope `scope`.
    pub fn bind(&mut self, scope: usize, name: String, obj: Object)
        requires
            scope < old(self)@.len(),
        ensures
            final(self)@ == bind(old(self)@, scope as nat, name@, obj@),
    {
        let ghost before = self@;
        let ghost store = self.scopes@[scope as int].store@;
        self.scopes[scope].store.insert(name, obj);
        proof {
            assert(store_view(store.insert(name@, obj)) =~= store_view(store).insert(name@, obj@));
            assert(self@ =~= bind(before, scope as nat, name@, obj@));
        }
    }

    /// Adds an empty scope whose parent is `parent`, and gives its index.
    pub fn push_scope(&mut self, parent: usize) -> (scope: usize)
        ensures
            final(self)@ == push_scope(old(self)@, parent as nat),
            scope == old(self)@.len(),
    {
        let ghost before = self@;
        let scope = self.scopes.len();
        self.scopes.push(Scope { store: StringHashMap::new(), parent: Some(parent), captured: false });
        proof {
            assert(self@[scope as int].store =~= Map::<Seq<char>, ObjectView>::empty());
            assert(self@ =~= push_scope(before, parent as nat));
        }
        scope
    }

    /// Marks scope `scope` as remembered by a function value.
    pub fn capture(&mut self, scope: usize)
        requires
            scope < old(self)@.len(),
        ensures
            final(self)@ == capture(old(self)@, scope as nat),
    {
        let ghost before = self@;
        self.scopes[scope].captured = true;
        assert(self@ =~= capture(before, scope as nat));
    }

    /// Drops scope `scope` where it is the scope of a call, the last one, and
    /// no function value remembers it. The global scope stays.
    pub fn release(&mut self, scope: usize)
        requires
            scope < old(self)@.len(),
        ensures
            final(self)@ == release(old(self)@, scope as nat),
            final(self).well_formed(),
    {
        let ghost before = self@;
        if 0 < scope && scope == self.scopes.len() - 1 && !self.scopes[scope].captured {
            let _ = self.scopes.pop();
            assert(self@ =~= release(before, scope as nat));
        }
    }
}

} // verus!
