use crate::dict::Dict;
use crate::literal::{Literal, LiteralView};
use crate::runtime_error::{RuntimeError, RuntimeErrorView};
use crate::token::{Token, TokenView};
use vstd::prelude::*;
use vstd::string::StringExecFns;

verus! {

/// A scope at run time: the values of its names, and the environment around
/// it, by its place in the store of environments.
pub struct Environment {
    pub values: Dict<Literal>,
    pub enclosing: Option<usize>,
}

/// What an `Environment` stands for.
pub struct EnvironmentView {
    pub values: Map<Seq<char>, LiteralView>,
    pub enclosing: Option<usize>,
}

/// The views of the environments of a store, in order.
pub open spec fn environments_view(environments: &Vec<Environment>) -> Seq<EnvironmentView> {
    Seq::new(environments.len() as nat, |i: int| environments[i]@)
}

/// The error for a name that has no value where it is looked for.
pub open spec fn undefined(name: TokenView) -> RuntimeErrorView {
    RuntimeErrorView { token: name, message: "Undefined variable '"@ + name.lexeme + "'."@ }
}

/// The environment `distance` steps out from `at`, if the chain is that long.
pub open spec fn ancestor_spec(
    environments: Seq<EnvironmentView>,
    at: usize,
    distance: nat,
) -> Option<usize>
    decreases distance,
{
    if at >= environments.len() {
        None
    } else if distance == 0 {
        Some(at)
    } else {
        match environments[at as int].enclosing {
            Some(outer) => ancestor_spec(environments, outer, (distance - 1) as nat),
            None => None,
        }
    }
}

/// The value of `name` in the environment `distance` steps out from `at`.
pub open spec fn get_at_spec(
    environments: Seq<EnvironmentView>,
    at: usize,
    distance: nat,
    name: TokenView,
) -> Result<LiteralView, RuntimeErrorView> {
    match ancestor_spec(environments, at, distance) {
        Some(owner) => if environments[owner as int].values.contains_key(name.lexeme) {
            Ok(environments[owner as int].values[name.lexeme])
        } else {
            Err(undefined(name))
        },
        None => Err(undefined(name)),
    }
}

/// The environment `environment` with `name` set to `value`.
pub open spec fn defined(
    environment: EnvironmentView,
    name: Seq<char>,
    value: LiteralView,
) -> EnvironmentView {
    EnvironmentView { values: environment.values.insert(name, value), ..environment }
}

/// The store after `name`, which has a value in the environment `distance`
/// steps out from `at`, is set to `value` there.
pub open spec fn assign_at_spec(
    environments: Seq<EnvironmentView>,
    at: usize,
    distance: nat,
    name: TokenView,
    value: LiteralView,
) -> Result<Seq<EnvironmentView>, RuntimeErrorView> {
    match ancestor_spec(environments, at, distance) {
        Some(owner) => if environments[owner as int].values.contains_key(name.lexeme) {
            Ok(
                environments.update(
                    owner as int,
                    defined(environments[owner as int], name.lexeme, value),
                ),
            )
        } else {
            Err(undefined(name))
        },
        None => Err(undefined(name)),
    }
}

/// The first environment from `at` outwards, within `steps` steps, in which
/// `name` has a value.
pub open spec fn owner_spec(
    environments: Seq<EnvironmentView>,
    at: usize,
    name: Seq<char>,
    steps: nat,
) -> Option<usize>
    decreases steps,
{
    if at >= environments.len() || steps == 0 {
        None
    } else if environments[at as int].values.contains_key(name) {
        Some(at)
    } else {
        match environments[at as int].enclosing {
            Some(outer) => owner_spec(environments, outer, name, (steps - 1) as nat),
            None => None,
        }
    }
}

/// The value of `name` in the nearest environment from `at` outwards that
/// has one.
pub open spec fn get_spec(
    environments: Seq<EnvironmentView>,
    at: usize,
    name: TokenView,
) -> Result<LiteralView, RuntimeErrorView> {
    match owner_spec(environments, at, name.lexeme, environments.len()) {
        Some(owner) => Ok(environments[owner as int].values[name.lexeme]),
        None => Err(undefined(name)),
    }
}

/// The store after `name` is set to `value` in the nearest environment from
/// `at` outwards in which it has a value.
pub open spec fn assign_spec(
    environments: Seq<EnvironmentView>,
    at: usize,
    name: TokenView,
    value: LiteralView,
) -> Result<Seq<EnvironmentView>, RuntimeErrorView> {
    match owner_spec(environments, at, name.lexeme, environments.len()) {
        Some(owner) => Ok(
            environments.update(
                owner as int,
                defined(environments[owner as int], name.lexeme, value),
            ),
        ),
        None => Err(undefined(name)),
    }
}

/// What the result of an evaluation stands for.
pub open spec fn value_result(r: Result<Literal, RuntimeError>) -> Result<
    LiteralView,
    RuntimeErrorView,
> {
    match r {
        Ok(value) => Ok(value@),
        Err(error) => Err(error@),
    }
}

/// The error for `name` where it has no value.
pub fn undefined_variable(name: &Token) -> (error: RuntimeError)
    ensures
        error@ == undefined(name@),
{
    let mut message = "Undefined variable '".to_string();
    message.append(name.lexeme.as_str());
    message.append("'.");
    RuntimeError::new(name.clone(), message)
}

impl Environment {
    /// What the environment stands for.
    pub open spec fn view(&self) -> EnvironmentView {
        EnvironmentView {
            values: self.values.map().map_values(|value: Literal| value@),
            enclosing: self.enclosing,
        }
    }

    /// An environment with nothing around it.
    pub fn new() -> (environment: Environment)
        ensures
            environment@ == (EnvironmentView { values: Map::empty(), enclosing: None }),
    {
        let environment = Environment { values: Dict::new(), enclosing: None };
        assert(environment@.values =~= Map::empty());
        environment
    }

    /// An environment within the one at `enclosing`.
    pub fn new_with(enclosing: usize) -> (environment: Environment)
        ensures
            environment@ == (EnvironmentView { values: Map::empty(), enclosing: Some(enclosing) }),
    {
        let environment = Environment { values: Dict::new(), enclosing: Some(enclosing) };
        assert(environment@.values =~= Map::empty());
        environment
    }

    /// Sets `name` to `value` in this environment.
    pub fn define(&mut self, name: String, value: Literal)
        ensures
            final(self)@ == defined(old(self)@, name@, value@),
    {
        let ghost key = name@;
        let ghost stored = value;
        self.values.insert(name, value);
        assert(self@.values =~= old(self)@.values.insert(key, stored@));
    }

    /// The value of `name` in this environment, if it has one here.
    pub fn lookup(&self, name: &String) -> (r: Option<Literal>)
        ensures
            match r {
                Some(value) => self@.values.contains_key(name@) && value@ == self@.values[name@],
                None => !self@.values.contains_key(name@),
            },
    {
        match self.values.get(name) {
            Some(value) => Some(value.clone()),
            None => None,
        }
    }

    /// The environment `distance` steps out from `at`.
    pub fn ancestor(environments: &Vec<Environment>, at: usize, distance: usize) -> (r: Option<
        usize,
    >)
        ensures
            r == ancestor_spec(environments_view(environments), at, distance as nat),
            r matches Some(owner) ==> owner < environments.len(),
    {
        let mut current = at;
        let mut left = distance;
        while left > 0 && current < environments.len()
            invariant
                ancestor_spec(environments_view(environments), current, left as nat)
                    == ancestor_spec(environments_view(environments), at, distance as nat),
            decreases left,
        {
            match environments[current].enclosing {
                Some(outer) => {
                    current = outer;
                    left -= 1;
                },
                None => {
                    return None;
                },
            }
        }
        if current < environments.len() {
            Some(current)
        } else {
            None
        }
    }

    /// The value of `name` in the environment `distance` steps out from `at`.
    pub fn get_at(environments: &Vec<Environment>, at: usize, distance: usize, name: &Token) -> (r:
        Result<Literal, RuntimeError>)
        ensures
            value_result(r) == get_at_spec(
                environments_view(environments),
                at,
                distance as nat,
                name@,
            ),
    {
        match Self::ancestor(environments, at, distance) {
            Some(owner) => match environments[owner].lookup(&name.lexeme) {
                Some(value) => Ok(value),
                None => Err(undefined_variable(name)),
            },
            None => Err(undefined_variable(name)),
        }
    }

    /// Sets `name` to `value` in the environment `distance` steps out from
    /// `at`, where `name` has a value there.
    pub fn assign_at(
        environments: &mut Vec<Environment>,
        at: usize,
        distance: usize,
        token: &Token,
        value: Literal,
    ) -> (r: Result<(), RuntimeError>)
        ensures
            match assign_at_spec(
                environments_view(old(environments)),
                at,
                distance as nat,
                token@,
                value@,
            ) {
                Ok(store) => r is Ok && environments_view(final(environments)) == store,
                Err(error) => r matches Err(e) && e@ == error && environments_view(
                    final(environments),
                ) == environments_view(old(environments)),
            },
            final(environments).len() == old(environments).len(),
    {
        match Self::ancestor(environments, at, distance) {
            Some(owner) => Self::assign_in(environments, owner, token, value),
            None => Err(undefined_variable(token)),
        }
    }

    /// Sets `name` to `value` in the environment at `owner`, where `name` has
    /// a value there.
    fn assign_in(environments: &mut Vec<Environment>, owner: usize, token: &Token, value: Literal)
        -> (r: Result<(), RuntimeError>)
        requires
            owner < old(environments).len(),
        ensures
            final(environments).len() == old(environments).len(),
            if environments_view(old(environments))[owner as int].values.contains_key(
                token@.lexeme,
            ) {
                r is Ok && environments_view(final(environments)) == environments_view(
                    old(environments),
                ).update(
                    owner as int,
                    defined(
                        environments_view(old(environments))[owner as int],
                        token@.lexeme,
                        value@,
                    ),
                )
            } else {
                r matches Err(e) && e@ == undefined(token@) && environments_view(
                    final(environments),
                ) == environments_view(old(environments))
            },
    {
        if environments[owner].values.contains_key(&token.lexeme) {
            let ghost before = environments_view(environments);
            let ghost stored = value@;
            environments[owner].define(token.lexeme.clone(), value);
            assert(environments_view(environments) =~= before.update(
                owner as int,
                defined(before[owner as int], token@.lexeme, stored),
            ));
            Ok(())
        } else {
            Err(undefined_variable(token))
        }
    }

    /// The nearest environment from `at` outwards in which `name` has a value.
    fn owner(environments: &Vec<Environment>, at: usize, name: &String) -> (r: Option<usize>)
        ensures
            r == owner_spec(environments_view(environments), at, name@, environments.len() as nat),
            r matches Some(owner) ==> owner < environments.len() && environments_view(
                environments,
            )[owner as int].values.contains_key(name@),
    {
        let mut current = at;
        let mut steps = environments.len();
        while steps > 0 && current < environments.len()
            invariant
                owner_spec(environments_view(environments), current, name@, steps as nat)
                    == owner_spec(
                    environments_view(environments),
                    at,
                    name@,
                    environments.len() as nat,
                ),
            decreases steps,
        {
            if environments[current].values.contains_key(name) {
                return Some(current);
            }
            match environments[current].enclosing {
                Some(outer) => {
                    current = outer;
                    steps -= 1;
                },
                None => {
                    return None;
                },
            }
        }
        None
    }

    /// The value of `name` in the nearest environment from `at` outwards
    /// that has one.
    pub fn get(environments: &Vec<Environment>, at: usize, name: &Token) -> (r: Result<
        Literal,
        RuntimeError,
    >)
        ensures
            value_result(r) == get_spec(environments_view(environments), at, name@),
    {
        match Self::owner(environments, at, &name.lexeme) {
            Some(owner) => match environments[owner].lookup(&name.lexeme) {
                Some(value) => Ok(value),
                None => Err(undefined_variable(name)),
            },
            None => Err(undefined_variable(name)),
        }
    }

    /// Sets `name` to `value` in the nearest environment from `at` outwards
    /// in which it has a value.
    pub fn assign(environments: &mut Vec<Environment>, at: usize, token: &Token, value: Literal)
        -> (r: Result<(), RuntimeError>)
        ensures
            match assign_spec(environments_view(old(environments)), at, token@, value@) {
                Ok(store) => r is Ok && environments_view(final(environments)) == store,
                Err(error) => r matches Err(e) && e@ == error && environments_view(
                    final(environments),
                ) == environments_view(old(environments)),
            },
            final(environments).len() == old(environments).len(),
    {
        match Self::owner(environments, at, &token.lexeme) {
            Some(owner) => Self::assign_in(environments, owner, token, value),
            None => Err(undefined_variable(token)),
        }
    }
}

} // verus!
