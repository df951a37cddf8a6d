use crate::dict::Dict;
use crate::error::{error_at, LuxError, LuxErrorView};
use crate::expr::{exprs_view, Expr, ExprView};
use crate::function::{Function, FunctionView};
use crate::interpreter::Interpreter;
use crate::stmt::{stmts_view, Stmt, StmtView};
use crate::token::{tokens_view, Token, TokenView};
use vstd::prelude::*;

verus! {

broadcast use {
    crate::maps::lemma_union_associative,
    crate::maps::lemma_union_empty,
    crate::maps::lemma_union_over_empty,
    crate::maps::lemma_union_entry,
    vstd::std_specs::vec::group_vec_axioms,
};

/// Whether the code being resolved stands in a function body.
#[derive(Clone, Copy, Debug, PartialEq, Eq, Structural)]
pub enum FunctionType {
    Outside,
    Function,
}

/// What a `Resolver` stands for: for each open scope, innermost last, the
/// names declared in it, each with whether it is defined yet; and whether the
/// code stands in a function body.
pub struct ResolverView {
    pub scopes: Seq<Map<Seq<char>, bool>>,
    pub in_function: bool,
}

/// What resolving a piece of code gives: the resolver's state after it, the
/// error if it stopped at one, and the distances it recorded.
pub struct Resolved {
    pub state: ResolverView,
    pub error: Option<LuxErrorView>,
    pub writes: Map<u64, usize>,
}

/// Code that recorded nothing.
pub open spec fn clean(state: ResolverView) -> Resolved {
    Resolved { state, error: None, writes: Map::empty() }
}

/// Code that stopped at `error`.
pub open spec fn failed(state: ResolverView, error: LuxErrorView) -> Resolved {
    Resolved { state, error: Some(error), writes: Map::empty() }
}

/// `second` after `first`: the later record of a node's distance stands.
pub open spec fn after(first: Resolved, second: Resolved) -> Resolved {
    Resolved {
        state: second.state,
        error: second.error,
        writes: first.writes.union_prefer_right(second.writes),
    }
}

/// The state with one more scope, which is empty.
pub open spec fn begun(state: ResolverView) -> ResolverView {
    ResolverView { scopes: state.scopes.push(Map::empty()), ..state }
}

/// The state without its innermost scope.
pub open spec fn ended(state: ResolverView) -> ResolverView {
    ResolverView {
        scopes: if state.scopes.len() > 0 {
            state.scopes.drop_last()
        } else {
            state.scopes
        },
        ..state
    }
}

/// The state with `name` set to `ready` in the innermost scope; the global
/// scope keeps no names.
pub open spec fn marked(state: ResolverView, name: Seq<char>, ready: bool) -> ResolverView {
    if state.scopes.len() == 0 {
        state
    } else {
        ResolverView {
            scopes: state.scopes.update(
                state.scopes.len() - 1,
                state.scopes.last().insert(name, ready),
            ),
            ..state
        }
    }
}

/// Declares `name` in the innermost scope, as not yet defined. A name that
/// the scope already has is an error.
pub open spec fn declare_spec(state: ResolverView, name: TokenView) -> Result<
    ResolverView,
    LuxErrorView,
> {
    if state.scopes.len() > 0 && state.scopes.last().contains_key(name.lexeme) {
        Err(error_at(name, "Already a variable with this name in this scope."@))
    } else {
        Ok(marked(state, name.lexeme, false))
    }
}

/// Whether `name` is declared in the innermost scope and not yet defined.
pub open spec fn unready(scopes: Seq<Map<Seq<char>, bool>>, name: Seq<char>) -> bool {
    scopes.len() > 0 && scopes.last().contains_key(name) && !scopes.last()[name]
}

/// The number of scopes between the innermost scope and the nearest scope
/// among the first `within` that declares `name`.
pub open spec fn distance_spec(scopes: Seq<Map<Seq<char>, bool>>, name: Seq<char>, within: nat)
    -> Option<usize>
    decreases within,
{
    if within == 0 || within > scopes.len() {
        None
    } else if scopes[within - 1].contains_key(name) {
        Some((scopes.len() - within) as usize)
    } else {
        distance_spec(scopes, name, (within - 1) as nat)
    }
}

/// The record for the variable node `id`: its distance where a scope
/// declares `name`, nothing where the name is global.
pub open spec fn local_write(scopes: Seq<Map<Seq<char>, bool>>, id: u64, name: Seq<char>) -> Map<
    u64,
    usize,
> {
    match distance_spec(scopes, name, scopes.len()) {
        Some(distance) => Map::empty().insert(id, distance),
        None => Map::empty(),
    }
}

/// A use of the variable `name` at node `id`: an error in the variable's own
/// initializer, the record of its distance otherwise.
pub open spec fn use_spec(state: ResolverView, name: TokenView, id: u64) -> Resolved {
    if unready(state.scopes, name.lexeme) {
        failed(state, error_at(name, "Can't read local variable in its own initializer."@))
    } else {
        Resolved { state, error: None, writes: local_write(state.scopes, id, name.lexeme) }
    }
}

/// Resolves an expression.
pub open spec fn resolve_expr_spec(state: ResolverView, expr: ExprView) -> Resolved
    decreases expr, 0nat,
{
    match expr {
        ExprView::Binary { left, right, .. } => {
            let first = resolve_expr_spec(state, *left);
            match first.error {
                Some(_) => first,
                None => after(first, resolve_expr_spec(first.state, *right)),
            }
        },
        ExprView::Logical { left, right, .. } => {
            let first = resolve_expr_spec(state, *left);
            match first.error {
                Some(_) => first,
                None => after(first, resolve_expr_spec(first.state, *right)),
            }
        },
        ExprView::Grouping { expression } => resolve_expr_spec(state, *expression),
        ExprView::Unary { right, .. } => resolve_expr_spec(state, *right),
        ExprView::Literal { .. } => clean(state),
        ExprView::Nil => clean(state),
        ExprView::Variable { name, id } => use_spec(state, name, id),
        ExprView::Assign { name, value, id } => {
            let first = resolve_expr_spec(state, *value);
            match first.error {
                Some(_) => first,
                None => after(first, use_spec(first.state, name, id)),
            }
        },
        ExprView::Call { callee, arguments, .. } => {
            let first = resolve_expr_spec(state, *callee);
            match first.error {
                Some(_) => first,
                None => after(
                    first,
                    resolve_exprs_spec(first.state, arguments, 0, Map::empty()),
                ),
            }
        },
    }
}

/// Resolves the expressions from the `i`-th on, after those that recorded
/// `written`.
pub open spec fn resolve_exprs_spec(
    state: ResolverView,
    exprs: Seq<ExprView>,
    i: nat,
    written: Map<u64, usize>,
) -> Resolved
    decreases exprs, exprs.len() - i,
{
    if i >= exprs.len() {
        Resolved { state, error: None, writes: written }
    } else {
        let step = resolve_expr_spec(state, exprs[i as int]);
        match step.error {
            Some(_) => Resolved { writes: written.union_prefer_right(step.writes), ..step },
            None => resolve_exprs_spec(
                step.state,
                exprs,
                i + 1,
                written.union_prefer_right(step.writes),
            ),
        }
    }
}

/// Declares and defines the parameters from the `i`-th on.
pub open spec fn parameters_spec(state: ResolverView, params: Seq<TokenView>, i: nat) -> Resolved
    decreases params.len() - i,
{
    if i >= params.len() {
        clean(state)
    } else {
        match declare_spec(state, params[i as int]) {
            Err(error) => failed(state, error),
            Ok(declared) => parameters_spec(
                marked(declared, params[i as int].lexeme, true),
                params,
                i + 1,
            ),
        }
    }
}

/// Resolves a function: its parameters and its body share one new scope.
pub open spec fn resolve_function_spec(state: ResolverView, function: FunctionView) -> Resolved
    decreases function, 0nat,
{
    let entered = ResolverView { in_function: true, ..begun(state) };
    let parameters = parameters_spec(entered, function.param, 0);
    match parameters.error {
        Some(_) => parameters,
        None => {
            let body = resolve_stmts_spec(parameters.state, function.body, 0, Map::empty());
            match body.error {
                Some(_) => body,
                None => Resolved {
                    state: ResolverView { in_function: state.in_function, ..ended(body.state) },
                    ..body
                },
            }
        },
    }
}

/// Resolves a statement.
pub open spec fn resolve_stmt_spec(state: ResolverView, stmt: StmtView) -> Resolved
    decreases stmt, 0nat,
{
    match stmt {
        StmtView::Expression { expression } => resolve_expr_spec(state, expression),
        StmtView::Print { expression } => resolve_expr_spec(state, expression),
        StmtView::Var { name, initializer } => match declare_spec(state, name) {
            Err(error) => failed(state, error),
            Ok(declared) => {
                let value = if initializer is Nil {
                    clean(declared)
                } else {
                    resolve_expr_spec(declared, initializer)
                };
                match value.error {
                    Some(_) => value,
                    None => Resolved { state: marked(value.state, name.lexeme, true), ..value },
                }
            },
        },
        StmtView::Block { statements } => {
            let inner = resolve_stmts_spec(begun(state), statements, 0, Map::empty());
            match inner.error {
                Some(_) => inner,
                None => Resolved { state: ended(inner.state), ..inner },
            }
        },
        StmtView::If { condition, then_branch, else_branch } => {
            let test = resolve_expr_spec(state, condition);
            match test.error {
                Some(_) => test,
                None => {
                    let then = after(test, resolve_stmt_spec(test.state, *then_branch));
                    match then.error {
                        Some(_) => then,
                        None => match else_branch {
                            Some(branch) => after(then, resolve_stmt_spec(then.state, *branch)),
                            None => then,
                        },
                    }
                },
            }
        },
        StmtView::Function(function) => match declare_spec(state, function.name) {
            Err(error) => failed(state, error),
            Ok(declared) => resolve_function_spec(
                marked(declared, function.name.lexeme, true),
                function,
            ),
        },
        StmtView::While { condition, body } => {
            let test = resolve_expr_spec(state, condition);
            match test.error {
                Some(_) => test,
                None => after(test, resolve_stmt_spec(test.state, *body)),
            }
        },
        StmtView::Return { keyword, value } => if !state.in_function {
            failed(state, error_at(keyword, "Can't return from top-level code."@))
        } else {
            resolve_expr_spec(state, value)
        },
    }
}

/// Resolves the statements from the `i`-th on, after those that recorded
/// `written`.
pub open spec fn resolve_stmts_spec(
    state: ResolverView,
    stmts: Seq<StmtView>,
    i: nat,
    written: Map<u64, usize>,
) -> Resolved
    decreases stmts, stmts.len() - i,
{
    if i >= stmts.len() {
        Resolved { state, error: None, writes: written }
    } else {
        let step = resolve_stmt_spec(state, stmts[i as int]);
        match step.error {
            Some(_) => Resolved { writes: written.union_prefer_right(step.writes), ..step },
            None => resolve_stmts_spec(
                step.state,
                stmts,
                i + 1,
                written.union_prefer_right(step.writes),
            ),
        }
    }
}

/// The error of a result, if it is one.
pub open spec fn error_of(r: Result<(), LuxError>) -> Option<LuxErrorView> {
    match r {
        Ok(()) => None,
        Err(error) => Some(error@),
    }
}

/// The views of the scopes, outermost first.
pub open spec fn scopes_view(scopes: &Vec<Dict<bool>>) -> Seq<Map<Seq<char>, bool>> {
    Seq::new(scopes.len() as nat, |i: int| scopes[i].map())
}

/// A pass over the syntax tree that binds each use of a variable to the
/// scope that declares it.
pub struct Resolver {
    pub scopes: Vec<Dict<bool>>,
    pub current_function: FunctionType,
}

impl Resolver {
    /// What the resolver stands for.
    pub open spec fn view(&self) -> ResolverView {
        ResolverView {
            scopes: scopes_view(&self.scopes),
            in_function: self.current_function == FunctionType::Function,
        }
    }

    /// Whether the resolver and the interpreter stand where `out` ends, after
    /// a start from `before`.
    pub open spec fn reached(
        self,
        interpreter: Interpreter,
        before: Interpreter,
        r: Result<(), LuxError>,
        out: Resolved,
    ) -> bool {
        &&& self@ == out.state
        &&& error_of(r) == out.error
        &&& interpreter.locals@ == before.locals@.union_prefer_right(out.writes)
        &&& interpreter.same_store(before)
    }

    /// A resolver at the top level, outside any function.
    pub fn new() -> (resolver: Resolver)
        ensures
            resolver@ == (ResolverView { scopes: Seq::empty(), in_function: false }),
    {
        let resolver = Resolver { scopes: Vec::new(), current_function: FunctionType::Outside };
        assert(resolver@.scopes =~= Seq::empty());
        resolver
    }

    /// Resolves the statements in order, and records in `interpreter` the
    /// distance of each use of a local variable.
    pub fn resolve(&mut self, interpreter: &mut Interpreter, statements: &Vec<Stmt>) -> (r: Result<
        (),
        LuxError,
    >)
        ensures
            final(self).reached(
                *final(interpreter),
                *old(interpreter),
                r,
                resolve_stmts_spec(old(self)@, stmts_view(statements), 0, Map::empty()),
            ),
        decreases statements, 1nat,
    {
        let ghost mut written: Map<u64, usize> = Map::empty();
        let mut i: usize = 0;
        while i < statements.len()
            invariant
                i <= statements.len(),
                interpreter.locals@ == old(interpreter).locals@.union_prefer_right(written),
                interpreter.same_store(*old(interpreter)),
                resolve_stmts_spec(self@, stmts_view(statements), i as nat, written)
                    == resolve_stmts_spec(old(self)@, stmts_view(statements), 0, Map::empty()),
            decreases statements.len() - i,
        {
            let ghost step = resolve_stmt_spec(self@, statements[i as int]@);
            let result = self.resolve_one(interpreter, &statements[i]);
            proof {
                written = written.union_prefer_right(step.writes);
            }
            match result {
                Ok(()) => {},
                Err(error) => {
                    return Err(error);
                },
            }
            i += 1;
        }
        Ok(())
    }

    fn resolve_one(&mut self, interpreter: &mut Interpreter, statement: &Stmt) -> (r: Result<
        (),
        LuxError,
    >)
        ensures
            final(self).reached(
                *final(interpreter),
                *old(interpreter),
                r,
                resolve_stmt_spec(old(self)@, statement@),
            ),
        decreases statement, 0nat,
    {
        match statement {
            Stmt::Expression { expression } => self.resolve_expr(interpreter, expression),
            Stmt::Print { expression } => self.resolve_expr(interpreter, expression),
            Stmt::Var { name, initializer } => {
                match self.declare(name) {
                    Ok(()) => {},
                    Err(error) => {
                        return Err(error);
                    },
                }
                match **initializer {
                    Expr::Nil => {},
                    _ => {
                        match self.resolve_expr(interpreter, initializer) {
                            Ok(()) => {},
                            Err(error) => {
                                return Err(error);
                            },
                        }
                    },
                }
                self.define(name);
                Ok(())
            },
            Stmt::Block { statements } => {
                self.begin_scope();
                match self.resolve(interpreter, statements) {
                    Ok(()) => {},
                    Err(error) => {
                        return Err(error);
                    },
                }
                self.end_scope();
                Ok(())
            },
            Stmt::If { condition, then_branch, else_branch } => {
                match self.resolve_expr(interpreter, condition) {
                    Ok(()) => {},
                    Err(error) => {
                        return Err(error);
                    },
                }
                match self.resolve_one(interpreter, then_branch) {
                    Ok(()) => {},
                    Err(error) => {
                        return Err(error);
                    },
                }
                match else_branch {
                    Some(branch) => self.resolve_one(interpreter, branch),
                    None => Ok(()),
                }
            },
            Stmt::Function(func) => {
                proof {
                    assert(func@.name == func.name@);
                }
                match self.declare(&func.name) {
                    Ok(()) => {},
                    Err(error) => {
                        return Err(error);
                    },
                }
                self.define(&func.name);
                self.resolve_func(interpreter, func, FunctionType::Function)
            },
            Stmt::While { condition, body } => {
                match self.resolve_expr(interpreter, condition) {
                    Ok(()) => {},
                    Err(error) => {
                        return Err(error);
                    },
                }
                self.resolve_one(interpreter, body)
            },
            Stmt::Return { value, keyword } => {
                if self.current_function == FunctionType::Outside {
                    return Err(LuxError::new(keyword, "Can't return from top-level code."));
                }
                self.resolve_expr(interpreter, value)
            },
        }
    }

    fn parameters(&mut self, params: &Vec<Token>) -> (r: Result<(), LuxError>)
        ensures
            final(self)@ == parameters_spec(old(self)@, tokens_view(params), 0).state,
            error_of(r) == parameters_spec(old(self)@, tokens_view(params), 0).error,
            parameters_spec(old(self)@, tokens_view(params), 0).writes == Map::<u64, usize>::empty(),
    {
        let mut i: usize = 0;
        while i < params.len()
            invariant
                i <= params.len(),
                parameters_spec(self@, tokens_view(params), i as nat) == parameters_spec(
                    old(self)@,
                    tokens_view(params),
                    0,
                ),
            decreases params.len() - i,
        {
            match self.declare(&params[i]) {
                Ok(()) => {},
                Err(error) => {
                    return Err(error);
                },
            }
            self.define(&params[i]);
            i += 1;
        }
        Ok(())
    }

    fn resolve_func(
        &mut self,
        interpreter: &mut Interpreter,
        function: &Function,
        function_type: FunctionType,
    ) -> (r: Result<(), LuxError>)
        requires
            function_type == FunctionType::Function,
        ensures
            final(self).reached(
                *final(interpreter),
                *old(interpreter),
                r,
                resolve_function_spec(old(self)@, function@),
            ),
        decreases function, 0nat,
    {
        let enclosing_function = self.current_function;
        self.current_function = function_type;
        self.begin_scope();
        match self.parameters(&function.param) {
            Ok(()) => {},
            Err(error) => {
                return Err(error);
            },
        }
        match self.resolve(interpreter, &function.body) {
            Ok(()) => {},
            Err(error) => {
                return Err(error);
            },
        }
        self.end_scope();
        self.current_function = enclosing_function;
        Ok(())
    }

    fn mark(&mut self, name: &Token, ready: bool)
        ensures
            final(self)@ == marked(old(self)@, name@.lexeme, ready),
    {
        let n = self.scopes.len();
        if n > 0 {
            let ghost before = scopes_view(&self.scopes);
            self.scopes[n - 1].insert(name.lexeme.clone(), ready);
            assert(scopes_view(&self.scopes) =~= before.update(
                n - 1,
                before.last().insert(name@.lexeme, ready),
            ));
        }
    }

    fn declare(&mut self, name: &Token) -> (r: Result<(), LuxError>)
        ensures
            match declare_spec(old(self)@, name@) {
                Ok(state) => r is Ok && final(self)@ == state,
                Err(error) => r matches Err(e) && e@ == error && final(self)@ == old(self)@,
            },
    {
        let n = self.scopes.len();
        if n > 0 && self.scopes[n - 1].contains_key(&name.lexeme) {
            return Err(LuxError::new(name, "Already a variable with this name in this scope."));
        }
        self.mark(name, false);
        Ok(())
    }

    fn define(&mut self, name: &Token)
        ensures
            final(self)@ == marked(old(self)@, name@.lexeme, true),
    {
        self.mark(name, true);
    }

    /// The distance of the nearest scope that declares `name`.
    fn distance(&self, name: &Token) -> (r: Option<usize>)
        ensures
            r == distance_spec(self@.scopes, name@.lexeme, self@.scopes.len()),
    {
        let n = self.scopes.len();
        let mut within = n;
        while within > 0
            invariant
                within <= n,
                n == self.scopes.len(),
                distance_spec(self@.scopes, name@.lexeme, within as nat) == distance_spec(
                    self@.scopes,
                    name@.lexeme,
                    self@.scopes.len(),
                ),
            decreases within,
        {
            if self.scopes[within - 1].contains_key(&name.lexeme) {
                return Some(n - within);
            }
            within -= 1;
        }
        None
    }

    fn resolve_local(&self, interpreter: &mut Interpreter, id: u64, name: &Token)
        ensures
            final(interpreter).locals@ == old(interpreter).locals@.union_prefer_right(
                local_write(self@.scopes, id, name@.lexeme),
            ),
            final(interpreter).same_store(*old(interpreter)),
    {
        match self.distance(name) {
            Some(distance) => {
                interpreter.resolve(id, distance);
            },
            None => {},
        }
    }

    /// Whether `name` is declared in the innermost scope and not defined yet.
    fn is_unready(&self, name: &Token) -> (r: bool)
        ensures
            r == unready(self@.scopes, name@.lexeme),
    {
        let n = self.scopes.len();
        if n == 0 {
            false
        } else {
            match self.scopes[n - 1].get(&name.lexeme) {
                Some(ready) => !*ready,
                None => false,
            }
        }
    }

    fn resolve_use(&self, interpreter: &mut Interpreter, name: &Token, id: u64) -> (r: Result<
        (),
        LuxError,
    >)
        ensures
            self.reached(*final(interpreter), *old(interpreter), r, use_spec(self@, name@, id)),
    {
        if self.is_unready(name) {
            return Err(
                LuxError::new(name, "Can't read local variable in its own initializer."),
            );
        }
        self.resolve_local(interpreter, id, name);
        Ok(())
    }

    fn resolve_exprs(&mut self, interpreter: &mut Interpreter, exprs: &Vec<Expr>) -> (r: Result<
        (),
        LuxError,
    >)
        ensures
            final(self).reached(
                *final(interpreter),
                *old(interpreter),
                r,
                resolve_exprs_spec(old(self)@, exprs_view(exprs), 0, Map::empty()),
            ),
        decreases exprs, 1nat,
    {
        let ghost mut written: Map<u64, usize> = Map::empty();
        let mut i: usize = 0;
        while i < exprs.len()
            invariant
                i <= exprs.len(),
                interpreter.locals@ == old(interpreter).locals@.union_prefer_right(written),
                interpreter.same_store(*old(interpreter)),
                resolve_exprs_spec(self@, exprs_view(exprs), i as nat, written)
                    == resolve_exprs_spec(old(self)@, exprs_view(exprs), 0, Map::empty()),
            decreases exprs.len() - i,
        {
            let ghost step = resolve_expr_spec(self@, exprs[i as int]@);
            let result = self.resolve_expr(interpreter, &exprs[i]);
            proof {
                written = written.union_prefer_right(step.writes);
            }
            match result {
                Ok(()) => {},
                Err(error) => {
                    return Err(error);
                },
            }
            i += 1;
        }
        Ok(())
    }

    fn resolve_expr(&mut self, interpreter: &mut Interpreter, expression: &Expr) -> (r: Result<
        (),
        LuxError,
    >)
        ensures
            final(self).reached(
                *final(interpreter),
                *old(interpreter),
                r,
                resolve_expr_spec(old(self)@, expression@),
            ),
        decreases expression, 0nat,
    {
        match expression {
            Expr::Binary { left, right, .. } => {
                match self.resolve_expr(interpreter, left) {
                    Ok(()) => {},
                    Err(error) => {
                        return Err(error);
                    },
                }
                self.resolve_expr(interpreter, right)
            },
            Expr::Grouping { expression } => self.resolve_expr(interpreter, expression),
            Expr::Literal { .. } => Ok(()),
            Expr::Unary { right, .. } => self.resolve_expr(interpreter, right),
            Expr::Variable { name, id } => self.resolve_use(interpreter, name, *id),
            Expr::Assign { name, value, id } => {
                match self.resolve_expr(interpreter, value) {
                    Ok(()) => {},
                    Err(error) => {
                        return Err(error);
                    },
                }
                self.resolve_use(interpreter, name, *id)
            },
            Expr::Logical { left, right, .. } => {
                match self.resolve_expr(interpreter, left) {
                    Ok(()) => {},
                    Err(error) => {
                        return Err(error);
                    },
                }
                self.resolve_expr(interpreter, right)
            },
            Expr::Call { callee, arguments, .. } => {
                match self.resolve_expr(interpreter, callee) {
                    Ok(()) => {},
                    Err(error) => {
                        return Err(error);
                    },
                }
                self.resolve_exprs(interpreter, arguments)
            },
            Expr::Nil => Ok(()),
        }
    }

    fn begin_scope(&mut self)
        ensures
            final(self)@ == begun(old(self)@),
    {
        self.scopes.push(Dict::new());
        assert(scopes_view(&self.scopes) =~= scopes_view(&old(self).scopes).push(Map::empty()));
    }

    fn end_scope(&mut self)
        ensures
            final(self)@ == ended(old(self)@),
    {
        self.scopes.pop();
        assert(scopes_view(&self.scopes) =~= ended(old(self)@).scopes);
    }
}

} // verus!
