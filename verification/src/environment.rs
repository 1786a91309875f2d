//! The environment: every scope of a run, and the scope in which the program
//! currently declares.
//!
//! Scopes live in one arena and name their parent by index, so a scope that a
//! function captured is shared, not copied: an assignment made through one
//! chain is seen through every chain that reaches the same scope. A parent is
//! always older than its children, so every chain ends.
use crate::helpers::{
    build_bool_runtime_value, build_native_function, build_null_runtime_value,
};
use crate::values::{
    assoc_map, is_last_of, lemma_assoc_map_domain, lemma_assoc_map_last, lemma_assoc_map_push,
    lemma_assoc_map_update, occurs, EvalError, EvalErrorView, RuntimeValue, RuntimeValueView,
};
use vstd::prelude::*;

verus! {

/// Model of one scope.
pub struct ScopeView {
    /// The index of the enclosing scope, if there is one.
    pub parent: Option<nat>,
    /// The value of each name declared in this scope.
    pub variables: Map<Seq<char>, RuntimeValueView>,
    /// The names declared constant in this scope.
    pub constants: Set<Seq<char>>,
}

/// Model of an environment.
pub struct EnvironmentView {
    pub scopes: Seq<ScopeView>,
    /// The index of the scope in which declarations are made and from which
    /// names are resolved.
    pub current: nat,
}

/// Whether the environment has a current scope and every parent is older than
/// its child.
pub open spec fn well_formed(env: EnvironmentView) -> bool {
    &&& env.current < env.scopes.len()
    &&& forall|i: int|
        0 <= i < env.scopes.len() ==> ((#[trigger] env.scopes[i]).parent matches Some(p) ==> p < i)
}

/// The nearest scope, from `from` outwards, that declares `name`.
pub open spec fn resolve_from(env: EnvironmentView, from: nat, name: Seq<char>) -> Option<nat>
    decreases from,
{
    if from >= env.scopes.len() {
        None
    } else if env.scopes[from as int].variables.contains_key(name) {
        Some(from)
    } else {
        match env.scopes[from as int].parent {
            Some(parent) => if parent < from {
                resolve_from(env, parent, name)
            } else {
                None
            },
            None => None,
        }
    }
}

/// The nearest scope, from the current one outwards, that declares `name`.
pub open spec fn resolve_spec(env: EnvironmentView, name: Seq<char>) -> Option<nat> {
    resolve_from(env, env.current, name)
}

/// The value of `name`, or `NameError` where no scope of the chain declares it.
pub open spec fn lookup_spec(env: EnvironmentView, name: Seq<char>) -> Result<
    RuntimeValueView,
    EvalErrorView,
> {
    match resolve_spec(env, name) {
        Some(scope) => Ok(env.scopes[scope as int].variables[name]),
        None => Err(EvalErrorView::NameError(name)),
    }
}

/// The environment with scope `at` replaced.
pub open spec fn with_scope(env: EnvironmentView, at: nat, scope: ScopeView) -> EnvironmentView {
    EnvironmentView { scopes: env.scopes.update(at as int, scope), current: env.current }
}

/// What a declaration answers and leaves behind: `DeclarationError` where the
/// current scope already declares `name`, else the value, bound in the current
/// scope.
pub open spec fn declare_spec(
    env: EnvironmentView,
    name: Seq<char>,
    value: RuntimeValueView,
    constant: bool,
) -> (Result<RuntimeValueView, EvalErrorView>, EnvironmentView) {
    let scope = env.scopes[env.current as int];
    if scope.variables.contains_key(name) {
        (Err(EvalErrorView::DeclarationError(name)), env)
    } else {
        (
            Ok(value),
            with_scope(
                env,
                env.current,
                ScopeView {
                    parent: scope.parent,
                    variables: scope.variables.insert(name, value),
                    constants: if constant {
                        scope.constants.insert(name)
                    } else {
                        scope.constants
                    },
                },
            ),
        )
    }
}

/// What an assignment answers and leaves behind: `NameError` where no scope of
/// the chain declares `name`, `ConstError` where the nearest that does holds
/// it constant, else the value, stored in that scope.
pub open spec fn assign_spec(env: EnvironmentView, name: Seq<char>, value: RuntimeValueView) -> (
    Result<RuntimeValueView, EvalErrorView>,
    EnvironmentView,
) {
    match resolve_spec(env, name) {
        None => (Err(EvalErrorView::NameError(name)), env),
        Some(at) => {
            let scope = env.scopes[at as int];
            if scope.constants.contains(name) {
                (Err(EvalErrorView::ConstError(name)), env)
            } else {
                (
                    Ok(value),
                    with_scope(
                        env,
                        at,
                        ScopeView {
                            parent: scope.parent,
                            variables: scope.variables.insert(name, value),
                            constants: scope.constants,
                        },
                    ),
                )
            }
        },
    }
}

/// A scope that declares nothing.
pub open spec fn empty_scope(parent: Option<nat>) -> ScopeView {
    ScopeView { parent, variables: Map::empty(), constants: Set::empty() }
}

/// The environment after a new, empty scope under `parent` became current.
pub open spec fn enter_spec(env: EnvironmentView, parent: nat) -> EnvironmentView {
    EnvironmentView {
        scopes: env.scopes.push(empty_scope(Some(parent))),
        current: env.scopes.len(),
    }
}

/// The environment after scope `to` became current again.
pub open spec fn leave_spec(env: EnvironmentView, to: nat) -> EnvironmentView {
    EnvironmentView { scopes: env.scopes, current: to }
}

/// One declared name.
#[derive(Debug, Clone)]
struct Binding {
    name: String,
    value: RuntimeValue,
    constant: bool,
}

/// One scope: its parent and what it declares. Where a name occurs more than
/// once, the last occurrence is the binding.
#[derive(Debug, Clone)]
pub struct Scope {
    parent: Option<usize>,
    bindings: Vec<Binding>,
}

/// The scopes of a run.
#[derive(Debug, Clone)]
pub struct Environment {
    scopes: Vec<Scope>,
    current: usize,
}

spec fn binding_names(bindings: Seq<Binding>) -> Seq<Seq<char>> {
    Seq::new(bindings.len(), |i: int| bindings[i].name@)
}

spec fn binding_values(bindings: Seq<Binding>) -> Seq<RuntimeValueView> {
    Seq::new(bindings.len(), |i: int| bindings[i].value@)
}

spec fn binding_constants(bindings: Seq<Binding>) -> Set<Seq<char>> {
    Set::new(
        |name: Seq<char>|
            exists|i: int|
                0 <= i < bindings.len() && bindings[i].name@ == name && bindings[i].constant,
    )
}

impl View for Scope {
    type V = ScopeView;

    closed spec fn view(&self) -> ScopeView {
        ScopeView {
            parent: match self.parent {
                Some(p) => Some(p as nat),
                None => None,
            },
            variables: assoc_map(binding_names(self.bindings@), binding_values(self.bindings@)),
            constants: binding_constants(self.bindings@),
        }
    }
}

impl View for Environment {
    type V = EnvironmentView;

    closed spec fn view(&self) -> EnvironmentView {
        EnvironmentView {
            scopes: Seq::new(self.scopes@.len(), |i: int| self.scopes@[i]@),
            current: self.current as nat,
        }
    }
}

/// The position of the last binding of `name`, if there is one.
fn find(bindings: &Vec<Binding>, name: &String) -> (r: Option<usize>)
    ensures
        match r {
            Some(at) => is_last_of(binding_names(bindings@), name@, at as int),
            None => !occurs(binding_names(bindings@), name@),
        },
{
    let mut found: Option<usize> = None;
    let mut i: usize = 0;
    while i < bindings.len()
        invariant
            i <= bindings.len(),
            match found {
                Some(at) => at < i && bindings@[at as int].name@ == name@ && forall|j: int|
                    at < j < i ==> bindings@[j].name@ != name@,
                None => forall|j: int| 0 <= j < i ==> bindings@[j].name@ != name@,
            },
        decreases bindings.len() - i,
    {
        if bindings[i].name == *name {
            found = Some(i);
        }
        i += 1;
    }
    found
}

impl Scope {
    /// Tells whether the scope declares `name`.
    fn declares(&self, name: &String) -> (r: bool)
        ensures
            r == self@.variables.contains_key(name@),
    {
        proof {
            lemma_assoc_map_domain(
                binding_names(self.bindings@),
                binding_values(self.bindings@),
                name@,
            );
        }
        match find(&self.bindings, name) {
            Some(_) => true,
            None => false,
        }
    }

    /// Tells whether the scope holds `name` constant.
    fn holds_constant(&self, name: &String) -> (r: bool)
        requires
            self@.variables.contains_key(name@),
        ensures
            r == self@.constants.contains(name@),
    {
        let mut i: usize = 0;
        while i < self.bindings.len()
            invariant
                i <= self.bindings.len(),
                forall|j: int|
                    0 <= j < i ==> !(self.bindings@[j].name@ == name@
                        && self.bindings@[j].constant),
            decreases self.bindings.len() - i,
        {
            if self.bindings[i].constant && self.bindings[i].name == *name {
                return true;
            }
            i += 1;
        }
        false
    }

    /// A copy of the value of `name`, if the scope declares it.
    fn value_of(&self, name: &String) -> (r: Option<RuntimeValue>)
        ensures
            match r {
                Some(value) => self@.variables.contains_key(name@) && value@
                    == self@.variables[name@],
                None => !self@.variables.contains_key(name@),
            },
    {
        proof {
            lemma_assoc_map_domain(
                binding_names(self.bindings@),
                binding_values(self.bindings@),
                name@,
            );
        }
        match find(&self.bindings, name) {
            Some(at) => {
                proof {
                    lemma_assoc_map_last(
                        binding_names(self.bindings@),
                        binding_values(self.bindings@),
                        name@,
                        at as int,
                    );
                }
                Some(self.bindings[at].value.duplicate())
            },
            None => None,
        }
    }

    /// Binds `name`, which the scope does not declare yet.
    fn bind(&mut self, name: String, value: RuntimeValue, constant: bool)
        requires
            !old(self)@.variables.contains_key(name@),
        ensures
            final(self)@ == (ScopeView {
                parent: old(self)@.parent,
                variables: old(self)@.variables.insert(name@, value@),
                constants: if constant {
                    old(self)@.constants.insert(name@)
                } else {
                    old(self)@.constants
                },
            }),
    {
        let ghost before = self.bindings@;
        let ghost key = name@;
        let binding = Binding { name, value, constant };
        self.bindings.push(binding);
        proof {
            let after = self.bindings@;
            lemma_assoc_map_domain(binding_names(before), binding_values(before), key);
            lemma_assoc_map_push(binding_names(before), binding_values(before), key, value@);
            assert(binding_names(after) =~= binding_names(before).push(key));
            assert(binding_values(after) =~= binding_values(before).push(value@));
            assert forall|k: Seq<char>|
                binding_constants(after).contains(k) <==> (if constant {
                    binding_constants(before).insert(key)
                } else {
                    binding_constants(before)
                }).contains(k) by {
                if binding_constants(after).contains(k) {
                    let i = choose|i: int|
                        0 <= i < after.len() && after[i].name@ == k && after[i].constant;
                    if i < before.len() {
                        assert(before[i].name@ == k && before[i].constant);
                    }
                }
                if binding_constants(before).contains(k) {
                    let i = choose|i: int|
                        0 <= i < before.len() && before[i].name@ == k && before[i].constant;
                    assert(after[i].name@ == k && after[i].constant);
                }
                if constant && k == key {
                    assert(after[before.len() as int].name@ == k);
                }
                if !constant && k == key && binding_constants(after).contains(k) {
                    let i = choose|i: int|
                        0 <= i < after.len() && after[i].name@ == k && after[i].constant;
                    assert(binding_names(before)[i] == key);
                }
            }
            assert(binding_constants(after) =~= (if constant {
                binding_constants(before).insert(key)
            } else {
                binding_constants(before)
            }));
        }
    }

    /// Stores `value` under `name`, which the scope declares.
    fn store(&mut self, name: &String, value: RuntimeValue)
        requires
            old(self)@.variables.contains_key(name@),
        ensures
            final(self)@ == (ScopeView {
                parent: old(self)@.parent,
                variables: old(self)@.variables.insert(name@, value@),
                constants: old(self)@.constants,
            }),
    {
        let ghost before = self.bindings@;
        proof {
            lemma_assoc_map_domain(binding_names(before), binding_values(before), name@);
        }
        match find(&self.bindings, name) {
            Some(at) => {
                let constant = self.bindings[at].constant;
                let replacement = Binding { name: name.clone(), value, constant };
                self.bindings.set(at, replacement);
                proof {
                    let after = self.bindings@;
                    lemma_assoc_map_update(
                        binding_names(before),
                        binding_values(before),
                        name@,
                        at as int,
                        value@,
                    );
                    assert(binding_names(after) =~= binding_names(before));
                    assert(binding_values(after) =~= binding_values(before).update(
                        at as int,
                        value@,
                    ));
                    assert forall|k: Seq<char>|
                        binding_constants(after).contains(k) <==> binding_constants(
                            before,
                        ).contains(k) by {
                        if binding_constants(after).contains(k) {
                            let i = choose|i: int|
                                0 <= i < after.len() && after[i].name@ == k && after[i].constant;
                            assert(before[i].name@ == k && before[i].constant);
                        }
                        if binding_constants(before).contains(k) {
                            let i = choose|i: int|
                                0 <= i < before.len() && before[i].name@ == k
                                    && before[i].constant;
                            assert(after[i].name@ == k && after[i].constant);
                        }
                    }
                    assert(binding_constants(after) =~= binding_constants(before));
                }
            },
            None => {},
        }
    }
}

/// A name resolves to a scope of the environment that declares it, no younger
/// than the scope the search started from.
pub proof fn lemma_resolve_from(env: EnvironmentView, from: nat, name: Seq<char>)
    ensures
        resolve_from(env, from, name) matches Some(scope) ==> scope <= from && scope
            < env.scopes.len() && env.scopes[scope as int].variables.contains_key(name),
    decreases from,
{
    if from < env.scopes.len() && !env.scopes[from as int].variables.contains_key(name) {
        match env.scopes[from as int].parent {
            Some(parent) => {
                if parent < from {
                    lemma_resolve_from(env, parent, name);
                }
            },
            None => {},
        }
    }
}

/// The number by which the host knows its output function.
pub const PRINT: usize = 0;

/// The number by which the host knows its clock function.
pub const GET_CURRENT_TIME: usize = 1;

/// A declaration made after the declarations before it succeeded.
pub open spec fn then_declare(
    before: (Result<RuntimeValueView, EvalErrorView>, EnvironmentView),
    name: Seq<char>,
    value: RuntimeValueView,
) -> (Result<RuntimeValueView, EvalErrorView>, EnvironmentView) {
    match before.0 {
        Ok(_) => declare_spec(before.1, name, value, true),
        Err(_) => before,
    }
}

/// What seeding answers and leaves behind: the constants `true`, `false` and
/// `null` and the host's functions `print` and `get_current_time`, declared in
/// this order in the current scope, up to the first that is already declared.
pub open spec fn seed_spec(env: EnvironmentView) -> (
    Result<RuntimeValueView, EvalErrorView>,
    EnvironmentView,
) {
    then_declare(
        then_declare(
            then_declare(
                then_declare(
                    declare_spec(env, "true"@, RuntimeValueView::Boolean(true), true),
                    "false"@,
                    RuntimeValueView::Boolean(false),
                ),
                "null"@,
                RuntimeValueView::Null,
            ),
            "print"@,
            RuntimeValueView::NativeFunction(PRINT as nat),
        ),
        "get_current_time"@,
        RuntimeValueView::NativeFunction(GET_CURRENT_TIME as nat),
    )
}

/// An environment of one scope that declares nothing.
pub open spec fn blank() -> EnvironmentView {
    EnvironmentView { scopes: seq![empty_scope(None)], current: 0 }
}

/// The global environment: one scope, seeded.
pub open spec fn global() -> EnvironmentView {
    seed_spec(blank()).1
}

impl Environment {
    /// The global environment: one scope without a parent, seeded with the
    /// constants `true`, `false`, `null` and the host's functions.
    pub fn new() -> (env: Environment)
        ensures
            env@ == global(),
            well_formed(env@),
            seed_spec(blank()).0 is Ok,
    {
        let mut scopes: Vec<Scope> = Vec::new();
        scopes.push(Scope { parent: None, bindings: Vec::new() });
        let mut env = Environment { scopes, current: 0 };
        proof {
            assert(binding_names(env.scopes@[0].bindings@) =~= Seq::empty());
            assert(binding_constants(env.scopes@[0].bindings@) =~= Set::empty());
            assert(env.scopes@[0]@.variables =~= Map::empty());
            assert(env@.scopes =~= blank().scopes);
        }
        let seeded = build_scope(&mut env);
        proof {
            lemma_seeding_blank();
        }
        env
    }

    /// The index of the current scope.
    pub fn current_scope(&self) -> (r: usize)
        ensures
            r == self@.current,
    {
        self.current
    }

    /// The number of scopes.
    pub fn scope_count(&self) -> (r: usize)
        ensures
            r == self@.scopes.len(),
    {
        self.scopes.len()
    }

    /// The nearest scope, from the current one outwards, that declares the name.
    pub fn resolve(&self, variable_name: &String) -> (r: Option<usize>)
        requires
            well_formed(self@),
        ensures
            match r {
                Some(scope) => resolve_spec(self@, variable_name@) == Some(scope as nat) && scope
                    < self@.scopes.len() && self@.scopes[scope as int].variables.contains_key(
                    variable_name@,
                ),
                None => resolve_spec(self@, variable_name@) is None,
            },
    {
        let mut at = self.current;
        loop
            invariant
                well_formed(self@),
                at < self.scopes.len(),
                resolve_spec(self@, variable_name@) == resolve_from(
                    self@,
                    at as nat,
                    variable_name@,
                ),
            decreases at,
        {
            assert(self@.scopes[at as int] == self.scopes@[at as int]@);
            if self.scopes[at].declares(variable_name) {
                return Some(at);
            }
            match self.scopes[at].parent {
                Some(parent) => {
                    at = parent;
                },
                None => {
                    return None;
                },
            }
        }
    }

    /// A copy of the value of the name, or `NameError`.
    pub fn peek_variable(&self, variable_name: String) -> (r: Result<RuntimeValue, EvalError>)
        requires
            well_formed(self@),
        ensures
            match r {
                Ok(value) => lookup_spec(self@, variable_name@) == Ok::<
                    RuntimeValueView,
                    EvalErrorView,
                >(value@),
                Err(e) => lookup_spec(self@, variable_name@) == Err::<
                    RuntimeValueView,
                    EvalErrorView,
                >(e@),
            },
    {
        let found = match self.resolve(&variable_name) {
            Some(scope) => {
                assert(self@.scopes[scope as int] == self.scopes@[scope as int]@);
                self.scopes[scope].value_of(&variable_name)
            },
            None => None,
        };
        match found {
            Some(value) => Ok(value),
            None => Err(EvalError::NameError(variable_name)),
        }
    }

    /// Declares the name in the current scope. Fails with `DeclarationError`
    /// where that scope already declares it; a declaration in an enclosing
    /// scope does not matter.
    pub fn declare_variable(
        &mut self,
        variable_name: String,
        value: RuntimeValue,
        constant: bool,
    ) -> (r: Result<RuntimeValue, EvalError>)
        requires
            well_formed(old(self)@),
        ensures
            well_formed(final(self)@),
            final(self)@.scopes.len() == old(self)@.scopes.len(),
            final(self)@.current == old(self)@.current,
            final(self)@ == declare_spec(old(self)@, variable_name@, value@, constant).1,
            match r {
                Ok(v) => declare_spec(old(self)@, variable_name@, value@, constant).0 == Ok::<
                    RuntimeValueView,
                    EvalErrorView,
                >(v@),
                Err(e) => declare_spec(old(self)@, variable_name@, value@, constant).0 == Err::<
                    RuntimeValueView,
                    EvalErrorView,
                >(e@),
            },
    {
        let at = self.current;
        assert(self@.scopes[at as int] == self.scopes@[at as int]@);
        if self.scopes[at].declares(&variable_name) {
            return Err(EvalError::DeclarationError(variable_name));
        }
        let stored = value.duplicate();
        let ghost before = self@;
        self.scopes[at].bind(variable_name, stored, constant);
        proof {
            assert(self@.scopes =~= before.scopes.update(at as int, self.scopes@[at as int]@));
        }
        Ok(value)
    }

    /// Assigns to the name in the nearest scope that declares it. Fails with
    /// `NameError` where none does and with `ConstError` where it is constant.
    pub fn assign_variable(&mut self, variable_name: String, value: RuntimeValue) -> (r: Result<
        RuntimeValue,
        EvalError,
    >)
        requires
            well_formed(old(self)@),
        ensures
            well_formed(final(self)@),
            final(self)@.scopes.len() == old(self)@.scopes.len(),
            final(self)@.current == old(self)@.current,
            final(self)@ == assign_spec(old(self)@, variable_name@, value@).1,
            match r {
                Ok(v) => assign_spec(old(self)@, variable_name@, value@).0 == Ok::<
                    RuntimeValueView,
                    EvalErrorView,
                >(v@),
                Err(e) => assign_spec(old(self)@, variable_name@, value@).0 == Err::<
                    RuntimeValueView,
                    EvalErrorView,
                >(e@),
            },
    {
        let at = match self.resolve(&variable_name) {
            Some(at) => at,
            None => {
                return Err(EvalError::NameError(variable_name));
            },
        };
        assert(self@.scopes[at as int] == self.scopes@[at as int]@);
        if self.scopes[at].holds_constant(&variable_name) {
            return Err(EvalError::ConstError(variable_name));
        }
        let stored = value.duplicate();
        let ghost before = self@;
        self.scopes[at].store(&variable_name, stored);
        proof {
            assert(self@.scopes =~= before.scopes.update(at as int, self.scopes@[at as int]@));
        }
        Ok(value)
    }

    /// Opens a new, empty scope under `parent` and makes it current. Answers
    /// the scope that was current; or nothing, and changes nothing, where
    /// `parent` is no scope of the environment or the environment is full.
    pub fn enter_scope(&mut self, parent: usize) -> (previous: Option<usize>)
        requires
            well_formed(old(self)@),
        ensures
            well_formed(final(self)@),
            match previous {
                Some(scope) => {
                    &&& parent < old(self)@.scopes.len() < usize::MAX
                    &&& scope == old(self)@.current
                    &&& final(self)@ == enter_spec(old(self)@, parent as nat)
                },
                None => {
                    &&& parent >= old(self)@.scopes.len() || old(self)@.scopes.len() >= usize::MAX
                    &&& final(self)@ == old(self)@
                },
            },
    {
        if parent >= self.scopes.len() || self.scopes.len() == usize::MAX {
            return None;
        }
        let previous = self.current;
        let ghost before = self@;
        let scope = Scope { parent: Some(parent), bindings: Vec::new() };
        proof {
            assert(binding_names(scope.bindings@) =~= Seq::empty());
            assert(binding_constants(scope.bindings@) =~= Set::empty());
            assert(scope@.variables =~= Map::empty());
        }
        self.current = self.scopes.len();
        self.scopes.push(scope);
        proof {
            assert(self@.scopes =~= before.scopes.push(empty_scope(Some(parent as nat))));
        }
        Some(previous)
    }

    /// Makes scope `to` current again. Answers whether `to` is a scope of the
    /// environment; where it is not, nothing changes.
    pub fn leave_scope(&mut self, to: usize) -> (left: bool)
        requires
            well_formed(old(self)@),
        ensures
            well_formed(final(self)@),
            left == (to < old(self)@.scopes.len()),
            final(self)@ == (if left {
                leave_spec(old(self)@, to as nat)
            } else {
                old(self)@
            }),
    {
        if to >= self.scopes.len() {
            return false;
        }
        let ghost before = self@;
        self.current = to;
        proof {
            assert(self@.scopes =~= before.scopes);
        }
        true
    }
}

/// Seeds the current scope: see `seed_spec`.
pub fn build_scope(env: &mut Environment) -> (r: Result<(), EvalError>)
    requires
        well_formed(old(env)@),
    ensures
        well_formed(final(env)@),
        final(env)@ == seed_spec(old(env)@).1,
        match r {
            Ok(_) => seed_spec(old(env)@).0 is Ok,
            Err(e) => seed_spec(old(env)@).0 == Err::<RuntimeValueView, EvalErrorView>(e@),
        },
{
    match env.declare_variable("true".to_owned(), build_bool_runtime_value(true), true) {
        Ok(_) => {},
        Err(e) => {
            return Err(e);
        },
    }
    match env.declare_variable("false".to_owned(), build_bool_runtime_value(false), true) {
        Ok(_) => {},
        Err(e) => {
            return Err(e);
        },
    }
    match env.declare_variable("null".to_owned(), build_null_runtime_value(), true) {
        Ok(_) => {},
        Err(e) => {
            return Err(e);
        },
    }
    match env.declare_variable("print".to_owned(), build_native_function(PRINT), true) {
        Ok(_) => {},
        Err(e) => {
            return Err(e);
        },
    }
    match env.declare_variable(
        "get_current_time".to_owned(),
        build_native_function(GET_CURRENT_TIME),
        true,
    ) {
        Ok(_) => Ok(()),
        Err(e) => Err(e),
    }
}

/// Seeding a blank environment succeeds.
pub proof fn lemma_seeding_blank()
    ensures
        seed_spec(blank()).0 is Ok,
        well_formed(global()),
        global().scopes.len() == 1,
        global().current == 0,
        global().scopes[0].parent is None,
        global().scopes[0].variables.dom() =~= set![
            "true"@,
            "false"@,
            "null"@,
            "print"@,
            "get_current_time"@,
        ],
        global().scopes[0].constants =~= global().scopes[0].variables.dom(),
        global().scopes[0].variables["true"@] == RuntimeValueView::Boolean(true),
        global().scopes[0].variables["false"@] == RuntimeValueView::Boolean(false),
        global().scopes[0].variables["null"@] == RuntimeValueView::Null,
        global().scopes[0].variables["print"@] == RuntimeValueView::NativeFunction(PRINT as nat),
        global().scopes[0].variables["get_current_time"@] == RuntimeValueView::NativeFunction(
            GET_CURRENT_TIME as nat,
        ),
{
    reveal_strlit("true");
    reveal_strlit("false");
    reveal_strlit("null");
    reveal_strlit("print");
    reveal_strlit("get_current_time");
    let a = declare_spec(blank(), "true"@, RuntimeValueView::Boolean(true), true);
    let b = then_declare(a, "false"@, RuntimeValueView::Boolean(false));
    let c = then_declare(b, "null"@, RuntimeValueView::Null);
    let d = then_declare(c, "print"@, RuntimeValueView::NativeFunction(PRINT as nat));
    assert("true"@.len() == 4 && "false"@.len() == 5 && "null"@.len() == 4 && "print"@.len() == 5
        && "get_current_time"@.len() == 16);
    assert("true"@[0] == 't' && "null"@[0] == 'n' && "false"@[0] == 'f' && "print"@[0] == 'p');
    assert(a.0 is Ok);
    assert(b.0 is Ok);
    assert(c.0 is Ok);
    assert(d.0 is Ok);
}

} // verus!
