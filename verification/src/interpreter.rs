use crate::clock::{random_id, reading_of, unix_seconds, Clock};
use crate::environment::{
    assign_at_spec, defined, environments_view, get_at_spec, value_result, Environment,
    EnvironmentView,
};
use crate::expr::{exprs_view, Expr, ExprView};
use crate::function::{share, LuxFunction, LuxFunctionView};
use crate::literal::{display_text, equal_values, truthy, Float, Literal, LiteralView};
use crate::oracle::{extends, foretold, Oracle};
use crate::number::{
    difference_bits, integer_bits, ieee_from_integer, less_equal_spec, less_spec, negated_bits,
    product_bits, quotient_bits, sum_bits,
};
use crate::runtime_error::{RuntimeError, RuntimeErrorView};
use crate::scanner::eof_token;
use crate::stmt::{stmts_view, Stmt, StmtView};
use crate::text::{decimal, decimal_text};
use crate::token::{tokens_view, Token, TokenView};
use crate::token_type::Types;
use std::collections::HashMap;
use vstd::prelude::*;
use vstd::string::StringExecFns;

verus! {

broadcast use {
    vstd::std_specs::hash::group_hash_axioms,
    crate::oracle::lemma_foretold_earlier,
};

/// A value, or the error that kept the program from giving it.
pub type RuntimeResult<T> = Result<T, RuntimeError>;

/// What an `Interpreter` stands for: the store of environments, the current
/// and the global environment, the resolved distances, the lines printed, how
/// many outside values were drawn, and how many function values were made
/// (counted up to the largest number).
pub struct InterpreterView {
    pub environments: Seq<EnvironmentView>,
    pub environment: usize,
    pub globals: usize,
    pub locals: Map<u64, usize>,
    pub output: Seq<Seq<char>>,
    pub drawn: nat,
    pub functions: u64,
}

/// A state and the value of an expression, or the error.
pub struct Evaluated {
    pub state: InterpreterView,
    pub result: Result<LiteralView, RuntimeErrorView>,
}

/// A state and the values of a list of expressions, or the error.
pub struct EvaluatedList {
    pub state: InterpreterView,
    pub result: Result<Seq<LiteralView>, RuntimeErrorView>,
}

/// A state and how a statement ended: normally (`None`), with a `return` of a
/// value, or with an error.
pub struct Executed {
    pub state: InterpreterView,
    pub result: Result<Option<LiteralView>, RuntimeErrorView>,
}

/// The error at `token` with `message`.
pub open spec fn error_with(token: TokenView, message: Seq<char>) -> RuntimeErrorView {
    RuntimeErrorView { token, message }
}

/// The error of an evaluation that used up its budget.
pub open spec fn exhausted() -> RuntimeErrorView {
    error_with(eof_token(0), "Evaluation budget exhausted."@)
}

/// The value of a unary operator.
pub open spec fn unary_spec(operator: TokenView, right: LiteralView) -> Result<
    LiteralView,
    RuntimeErrorView,
> {
    if operator.type_t == Types::MINUS {
        match right {
            LiteralView::Number(bits) => Ok(LiteralView::Number(negated_bits(bits))),
            _ => Err(error_with(operator, "Operand must be a number."@)),
        }
    } else if operator.type_t == Types::BANG {
        Ok(LiteralView::Bool(!truthy(right)))
    } else {
        Err(error_with(operator, "not implemented"@))
    }
}

/// The value of an arithmetic operator or a comparison on two numbers.
pub open spec fn numeric_spec(kind: Types, a: u64, b: u64) -> LiteralView {
    if kind == Types::MINUS {
        LiteralView::Number(difference_bits(a, b))
    } else if kind == Types::SLASH {
        LiteralView::Number(quotient_bits(a, b))
    } else if kind == Types::STAR {
        LiteralView::Number(product_bits(a, b))
    } else if kind == Types::PLUS {
        LiteralView::Number(sum_bits(a, b))
    } else if kind == Types::GREATER {
        LiteralView::Bool(less_spec(b, a))
    } else if kind == Types::GREATER_EQUAL {
        LiteralView::Bool(less_equal_spec(b, a))
    } else if kind == Types::LESS {
        LiteralView::Bool(less_spec(a, b))
    } else {
        LiteralView::Bool(less_equal_spec(a, b))
    }
}

/// Whether `kind` is an operator that takes two numbers.
pub open spec fn is_numeric(kind: Types) -> bool {
    kind == Types::MINUS || kind == Types::SLASH || kind == Types::STAR || kind == Types::GREATER
        || kind == Types::GREATER_EQUAL || kind == Types::LESS || kind == Types::LESS_EQUAL
}

/// The value of a binary operator.
pub open spec fn binary_spec(operator: TokenView, left: LiteralView, right: LiteralView) -> Result<
    LiteralView,
    RuntimeErrorView,
> {
    let kind = operator.type_t;
    if kind == Types::BANG_EQUAL {
        Ok(LiteralView::Bool(!equal_values(left, right)))
    } else if kind == Types::EQUAL_EQUAL {
        Ok(LiteralView::Bool(equal_values(left, right)))
    } else if kind == Types::PLUS {
        match (left, right) {
            (LiteralView::Number(a), LiteralView::Number(b)) => Ok(numeric_spec(kind, a, b)),
            (LiteralView::String(a), LiteralView::String(b)) => Ok(LiteralView::String(a + b)),
            _ => Err(error_with(operator, "Operands must be two numbers or two strings."@)),
        }
    } else if is_numeric(kind) {
        match (left, right) {
            (LiteralView::Number(a), LiteralView::Number(b)) => Ok(numeric_spec(kind, a, b)),
            _ => Err(error_with(operator, "Operands must be numbers."@)),
        }
    } else {
        Err(error_with(operator, "Operator type not implemented!"@))
    }
}

/// The value of the variable `name`: at its resolved distance from the
/// current environment, or in the global environment where it has none.
pub open spec fn lookup_spec(s: InterpreterView, name: TokenView, id: u64) -> Result<
    LiteralView,
    RuntimeErrorView,
> {
    if s.locals.contains_key(id) {
        get_at_spec(s.environments, s.environment, s.locals[id] as nat, name)
    } else {
        get_at_spec(s.environments, s.globals, 0, name)
    }
}

/// The state after the variable `name` is set to `value`: at its resolved
/// distance from the current environment, or in the global environment where
/// it has none.
pub open spec fn assigned(s: InterpreterView, name: TokenView, id: u64, value: LiteralView)
    -> Result<InterpreterView, RuntimeErrorView> {
    let stored = if s.locals.contains_key(id) {
        assign_at_spec(s.environments, s.environment, s.locals[id] as nat, name, value)
    } else {
        assign_at_spec(s.environments, s.globals, 0, name, value)
    };
    match stored {
        Ok(environments) => Ok(InterpreterView { environments, ..s }),
        Err(error) => Err(error),
    }
}

/// The state after `name` is set to `value` in the current environment.
pub open spec fn define_here(s: InterpreterView, name: Seq<char>, value: LiteralView)
    -> InterpreterView {
    InterpreterView {
        environments: s.environments.update(
            s.environment as int,
            defined(s.environments[s.environment as int], name, value),
        ),
        ..s
    }
}

/// The state with `environment` added to the store.
pub open spec fn stored(s: InterpreterView, environment: EnvironmentView) -> InterpreterView {
    InterpreterView { environments: s.environments.push(environment), ..s }
}

/// The state with the environment at `environment` current.
pub open spec fn moved(s: InterpreterView, environment: usize) -> InterpreterView {
    InterpreterView { environment, ..s }
}

/// The state after `text` is printed.
pub open spec fn printed(s: InterpreterView, text: Seq<char>) -> InterpreterView {
    InterpreterView { output: s.output.push(text), ..s }
}

/// The state after one outside value is drawn.
pub open spec fn drew(s: InterpreterView) -> InterpreterView {
    InterpreterView { drawn: s.drawn + 1, ..s }
}

/// The state after one more function value is made.
pub open spec fn counted(s: InterpreterView) -> InterpreterView {
    InterpreterView {
        functions: if s.functions < u64::MAX {
            (s.functions + 1) as u64
        } else {
            s.functions
        },
        ..s
    }
}

/// The state `after` a block or a call that started in `before`, without the
/// environments that it added, where no function value was made meanwhile:
/// only a function value keeps an environment in use.
pub open spec fn released(before: InterpreterView, after: InterpreterView) -> InterpreterView {
    if after.functions == before.functions && before.functions < u64::MAX
        && before.environments.len() <= after.environments.len() {
        InterpreterView {
            environments: after.environments.take(before.environments.len() as int),
            ..after
        }
    } else {
        after
    }
}

/// The message of a call with the wrong number of arguments.
pub open spec fn arity_message(expected: nat, got: nat) -> Seq<char> {
    "Expected "@ + decimal_text(expected) + " arguments but got "@ + decimal_text(got) + "."@
}

/// The values of the first `n` parameters: each parameter's name with the
/// argument at its place.
pub open spec fn bound(params: Seq<TokenView>, arguments: Seq<LiteralView>, n: nat) -> Map<
    Seq<char>,
    LiteralView,
>
    decreases n,
{
    if n == 0 {
        Map::empty()
    } else {
        bound(params, arguments, (n - 1) as nat).insert(
            params[n - 1].lexeme,
            arguments[n - 1],
        )
    }
}

/// The value of an expression, and the state after its evaluation.
pub open spec fn evaluate_spec(s: InterpreterView, expr: ExprView, depth: nat, o: Oracle)
    -> Evaluated
    decreases depth, 0nat, 0nat,
{
    if depth == 0 {
        Evaluated { state: s, result: Err(exhausted()) }
    } else {
        let d = (depth - 1) as nat;
        match expr {
            ExprView::Literal { value } => Evaluated { state: s, result: Ok(value) },
            ExprView::Nil => Evaluated { state: s, result: Ok(LiteralView::Nil) },
            ExprView::Grouping { expression } => evaluate_spec(s, *expression, d, o),
            ExprView::Unary { operator, right } => {
                let operand = evaluate_spec(s, *right, d, o);
                match operand.result {
                    Err(_) => operand,
                    Ok(value) => Evaluated {
                        state: operand.state,
                        result: unary_spec(operator, value),
                    },
                }
            },
            ExprView::Binary { left, right, operator } => {
                let first = evaluate_spec(s, *left, d, o);
                match first.result {
                    Err(_) => first,
                    Ok(a) => {
                        let second = evaluate_spec(first.state, *right, d, o);
                        match second.result {
                            Err(_) => second,
                            Ok(b) => Evaluated {
                                state: second.state,
                                result: binary_spec(operator, a, b),
                            },
                        }
                    },
                }
            },
            ExprView::Variable { name, id } => Evaluated {
                state: s,
                result: lookup_spec(s, name, id),
            },
            ExprView::Assign { name, value, id } => {
                let right = evaluate_spec(s, *value, d, o);
                match right.result {
                    Err(_) => right,
                    Ok(v) => match assigned(right.state, name, id, v) {
                        Ok(state) => Evaluated { state, result: Ok(v) },
                        Err(error) => Evaluated { state: right.state, result: Err(error) },
                    },
                }
            },
            ExprView::Logical { left, operator, right } => {
                let first = evaluate_spec(s, *left, d, o);
                match first.result {
                    Err(_) => first,
                    Ok(a) => if (operator.type_t == Types::OR) == truthy(a) {
                        first
                    } else {
                        evaluate_spec(first.state, *right, d, o)
                    },
                }
            },
            ExprView::Call { callee, paren, arguments } => {
                let function = evaluate_spec(s, *callee, d, o);
                match function.result {
                    Err(_) => function,
                    Ok(f) => {
                        let values = evaluate_list_spec(
                            function.state,
                            arguments,
                            0,
                            Seq::empty(),
                            d,
                            o,
                        );
                        match values.result {
                            Err(error) => Evaluated { state: values.state, result: Err(error) },
                            Ok(found) => call_spec(values.state, f, paren, found, d, o),
                        }
                    },
                }
            },
        }
    }
}

/// The values of the expressions from the `i`-th on, after those in `found`,
/// from left to right.
pub open spec fn evaluate_list_spec(
    s: InterpreterView,
    exprs: Seq<ExprView>,
    i: nat,
    found: Seq<LiteralView>,
    depth: nat,
    o: Oracle,
) -> EvaluatedList
    decreases depth, 1nat, exprs.len() - i,
{
    if i >= exprs.len() {
        EvaluatedList { state: s, result: Ok(found) }
    } else {
        let value = evaluate_spec(s, exprs[i as int], depth, o);
        match value.result {
            Err(error) => EvaluatedList { state: value.state, result: Err(error) },
            Ok(v) => evaluate_list_spec(value.state, exprs, i + 1, found.push(v), depth, o),
        }
    }
}

/// The statements run in the environment at `environment`; whatever the
/// outcome, the environment that was current is current again.
pub open spec fn block_spec(
    s: InterpreterView,
    stmts: Seq<StmtView>,
    environment: usize,
    depth: nat,
    o: Oracle,
) -> Executed
    decreases depth, 2nat, 0nat,
{
    let run = execute_list_spec(moved(s, environment), stmts, 0, depth, o);
    Executed { state: moved(run.state, s.environment), result: run.result }
}

/// The call of the function `f` on `arguments`: the body runs in a new
/// environment within the function's closure, which holds the parameters.
/// The result is the value returned, or `nil`.
pub open spec fn function_call_spec(
    s: InterpreterView,
    f: LuxFunctionView,
    paren: TokenView,
    arguments: Seq<LiteralView>,
    depth: nat,
    o: Oracle,
) -> Evaluated
    decreases depth, 3nat, 0nat,
{
    if f.closure >= s.environments.len() {
        Evaluated { state: s, result: Err(error_with(paren, "Unknown closure."@)) }
    } else {
        let frame = EnvironmentView {
            values: bound(f.declaration.param, arguments, f.declaration.param.len()),
            enclosing: Some(f.closure),
        };
        let run = block_spec(
            stored(s, frame),
            f.declaration.body,
            s.environments.len() as usize,
            depth,
            o,
        );
        Evaluated {
            state: released(s, run.state),
            result: match run.result {
                Ok(Some(value)) => Ok(value),
                Ok(None) => Ok(LiteralView::Nil),
                Err(error) => Err(error),
            },
        }
    }
}

/// The call of `callee` on `arguments`. Only a callable can be called, and
/// only with as many arguments as it has parameters. The clock gives the
/// next outside value, as a number.
pub open spec fn call_spec(
    s: InterpreterView,
    callee: LiteralView,
    paren: TokenView,
    arguments: Seq<LiteralView>,
    depth: nat,
    o: Oracle,
) -> Evaluated
    decreases depth, 4nat, 0nat,
{
    match callee {
        LiteralView::Clock(_) => if arguments.len() != 0 {
            Evaluated {
                state: s,
                result: Err(error_with(paren, arity_message(0, arguments.len()))),
            }
        } else {
            Evaluated {
                state: drew(s),
                result: Ok(LiteralView::Number(integer_bits(o(s.drawn)))),
            }
        },
        LiteralView::Function(f) => if arguments.len() != f.declaration.param.len() {
            Evaluated {
                state: s,
                result: Err(
                    error_with(
                        paren,
                        arity_message(f.declaration.param.len(), arguments.len()),
                    ),
                ),
            }
        } else {
            function_call_spec(s, *f, paren, arguments, depth, o)
        },
        _ => Evaluated {
            state: s,
            result: Err(error_with(paren, "Can only call functions and classes."@)),
        },
    }
}

/// A loop of at most `rounds` rounds: while the condition is truthy, the body
/// runs; a `return` or an error in it ends the loop.
pub open spec fn while_spec(
    s: InterpreterView,
    condition: ExprView,
    body: StmtView,
    depth: nat,
    rounds: nat,
    o: Oracle,
) -> Executed
    decreases depth, 1nat, rounds,
{
    if rounds == 0 {
        Executed { state: s, result: Err(exhausted()) }
    } else {
        let test = evaluate_spec(s, condition, depth, o);
        match test.result {
            Err(error) => Executed { state: test.state, result: Err(error) },
            Ok(value) => if !truthy(value) {
                Executed { state: test.state, result: Ok(None) }
            } else {
                let round = execute_spec(test.state, body, depth, o);
                match round.result {
                    Ok(None) => while_spec(
                        round.state,
                        condition,
                        body,
                        depth,
                        (rounds - 1) as nat,
                        o,
                    ),
                    _ => round,
                }
            },
        }
    }
}

/// How a statement ends, and the state after it.
pub open spec fn execute_spec(s: InterpreterView, stmt: StmtView, depth: nat, o: Oracle)
    -> Executed
    decreases depth, 0nat, 0nat,
{
    if depth == 0 {
        Executed { state: s, result: Err(exhausted()) }
    } else {
        let d = (depth - 1) as nat;
        match stmt {
            StmtView::Expression { expression } => {
                let value = evaluate_spec(s, expression, d, o);
                match value.result {
                    Err(error) => Executed { state: value.state, result: Err(error) },
                    Ok(_) => Executed { state: value.state, result: Ok(None) },
                }
            },
            StmtView::Print { expression } => {
                let value = evaluate_spec(s, expression, d, o);
                match value.result {
                    Err(error) => Executed { state: value.state, result: Err(error) },
                    Ok(v) => Executed {
                        state: printed(value.state, display_text(v)),
                        result: Ok(None),
                    },
                }
            },
            StmtView::Var { name, initializer } => {
                let value = evaluate_spec(s, initializer, d, o);
                match value.result {
                    Err(error) => Executed { state: value.state, result: Err(error) },
                    Ok(v) => Executed {
                        state: define_here(value.state, name.lexeme, v),
                        result: Ok(None),
                    },
                }
            },
            StmtView::Block { statements } => {
                let run = block_spec(
                    stored(
                        s,
                        EnvironmentView { values: Map::empty(), enclosing: Some(s.environment) },
                    ),
                    statements,
                    s.environments.len() as usize,
                    d,
                    o,
                );
                Executed { state: released(s, run.state), result: run.result }
            },
            StmtView::If { condition, then_branch, else_branch } => {
                let test = evaluate_spec(s, condition, d, o);
                match test.result {
                    Err(error) => Executed { state: test.state, result: Err(error) },
                    Ok(v) => if truthy(v) {
                        execute_spec(test.state, *then_branch, d, o)
                    } else {
                        match else_branch {
                            Some(branch) => execute_spec(test.state, *branch, d, o),
                            None => Executed { state: test.state, result: Ok(None) },
                        }
                    },
                }
            },
            StmtView::While { condition, body } => while_spec(
                s,
                condition,
                *body,
                d,
                usize::MAX as nat,
                o,
            ),
            StmtView::Function(declaration) => Executed {
                state: define_here(
                    counted(drew(s)),
                    declaration.name.lexeme,
                    LiteralView::Function(
                        Box::new(
                            LuxFunctionView {
                                declaration,
                                id: o(s.drawn) as usize,
                                closure: s.environment,
                            },
                        ),
                    ),
                ),
                result: Ok(None),
            },
            StmtView::Return { keyword, value } => {
                let returned = evaluate_spec(s, value, d, o);
                match returned.result {
                    Err(error) => Executed { state: returned.state, result: Err(error) },
                    Ok(v) => Executed { state: returned.state, result: Ok(Some(v)) },
                }
            },
        }
    }
}

/// The statements from the `i`-th on, in order, up to the first that does
/// not end normally.
pub open spec fn execute_list_spec(
    s: InterpreterView,
    stmts: Seq<StmtView>,
    i: nat,
    depth: nat,
    o: Oracle,
) -> Executed
    decreases depth, 1nat, stmts.len() - i,
{
    if i >= stmts.len() {
        Executed { state: s, result: Ok(None) }
    } else {
        let step = execute_spec(s, stmts[i as int], depth, o);
        match step.result {
            Ok(None) => execute_list_spec(step.state, stmts, i + 1, depth, o),
            _ => step,
        }
    }
}

/// What the result of a statement stands for.
pub open spec fn flow_result(r: Result<Option<Literal>, RuntimeError>) -> Result<
    Option<LiteralView>,
    RuntimeErrorView,
> {
    match r {
        Ok(Some(value)) => Ok(Some(value@)),
        Ok(None) => Ok(None),
        Err(error) => Err(error@),
    }
}

/// The views of a list of values, in order.
pub open spec fn values_view(values: &Vec<Literal>) -> Seq<LiteralView> {
    Seq::new(values.len() as nat, |i: int| values[i]@)
}

/// The views of the lines printed, in order.
pub open spec fn lines_view(lines: &Vec<String>) -> Seq<Seq<char>> {
    Seq::new(lines.len() as nat, |i: int| lines[i]@)
}

/// A tree-walking evaluator over a store of environments.
pub struct Interpreter {
    pub environments: Vec<Environment>,
    pub environment: usize,
    pub globals: usize,
    pub locals: HashMap<u64, usize>,
    pub output: Vec<String>,
    pub functions: u64,
    pub outside: Ghost<Seq<u64>>,
}

impl Interpreter {
    /// What the interpreter stands for.
    pub open spec fn view(&self) -> InterpreterView {
        InterpreterView {
            environments: environments_view(&self.environments),
            environment: self.environment,
            globals: self.globals,
            locals: self.locals@,
            output: lines_view(&self.output),
            drawn: self.outside@.len(),
            functions: self.functions,
        }
    }

    /// The current and the global environment are in the store.
    pub open spec fn wf(&self) -> bool {
        self.environment < self.environments.len() && self.globals < self.environments.len()
    }

    /// Everything but the resolved distances is as in `other`.
    pub open spec fn same_store(self, other: Interpreter) -> bool {
        &&& self.environments == other.environments
        &&& self.environment == other.environment
        &&& self.globals == other.globals
        &&& self.output == other.output
        &&& self.functions == other.functions
        &&& self.outside == other.outside
    }

    /// The outside values drawn so far, in order.
    pub open spec fn log(&self) -> Seq<u64> {
        self.outside@
    }

    /// The interpreter has gone on from `before`: it has drawn more outside
    /// values, and its store has not shrunk.
    pub open spec fn follows(self, before: Interpreter) -> bool {
        &&& self.wf()
        &&& extends(self.log(), before.log())
        &&& self.environments.len() >= before.environments.len()
        &&& self.environment == before.environment
        &&& self.globals == before.globals
        &&& self.locals == before.locals
    }

    /// An interpreter whose global environment holds `clock` under the name
    /// `clock`.
    pub fn with_clock(clock: Clock) -> (interpreter: Interpreter)
        ensures
            interpreter.wf(),
            interpreter@ == (InterpreterView {
                environments: seq![
                    EnvironmentView {
                        values: Map::empty().insert("clock"@, LiteralView::Clock(clock)),
                        enclosing: None,
                    },
                ],
                environment: 0,
                globals: 0,
                locals: Map::empty(),
                output: Seq::empty(),
                drawn: 0,
                functions: 0,
            }),
    {
        let mut globals = Environment::new();
        globals.define("clock".to_string(), Literal::Clock(clock));
        let mut environments: Vec<Environment> = Vec::new();
        environments.push(globals);
        let interpreter = Interpreter {
            environments,
            environment: 0,
            globals: 0,
            locals: HashMap::new(),
            output: Vec::new(),
            functions: 0,
            outside: Ghost(Seq::empty()),
        };
        assert(interpreter@.environments =~= seq![
            EnvironmentView {
                values: Map::empty().insert("clock"@, LiteralView::Clock(clock)),
                enclosing: None,
            },
        ]);
        assert(interpreter@.output =~= Seq::empty());
        interpreter
    }

    /// An interpreter whose global environment holds the built-in `clock`.
    pub fn new() -> (interpreter: Interpreter)
        ensures
            interpreter.wf(),
            exists|clock: Clock|
                clock.arity == 0 && interpreter@ == (InterpreterView {
                    environments: seq![
                        EnvironmentView {
                            values: Map::empty().insert("clock"@, LiteralView::Clock(clock)),
                            enclosing: None,
                        },
                    ],
                    environment: 0,
                    globals: 0,
                    locals: Map::empty(),
                    output: Seq::empty(),
                    drawn: 0,
                    functions: 0,
                }),
    {
        Self::with_clock(Clock::new())
    }

    /// Records that the variable node `id` is bound `depth` environments out.
    pub fn resolve(&mut self, id: u64, depth: usize)
        ensures
            final(self)@ == (InterpreterView {
                locals: old(self)@.locals.insert(id, depth),
                ..old(self)@
            }),
            final(self).locals@ == old(self).locals@.insert(id, depth),
            final(self).same_store(*old(self)),
    {
        self.locals.insert(id, depth);
    }

    /// Whether the current and the global environment are in the store.
    pub fn is_ready(&self) -> (r: bool)
        ensures
            r == self.wf(),
    {
        self.environment < self.environments.len() && self.globals < self.environments.len()
    }

    /// Hands out the lines printed so far, and forgets them.
    pub fn take_output(&mut self) -> (lines: Vec<String>)
        ensures
            lines_view(&lines) == old(self)@.output,
            final(self)@ == (InterpreterView { output: Seq::empty(), ..old(self)@ }),
            final(self).log() == old(self).log(),
            final(self).environments == old(self).environments,
            final(self).environment == old(self).environment,
            final(self).globals == old(self).globals,
            final(self).locals == old(self).locals,
    {
        let mut lines: Vec<String> = Vec::new();
        std::mem::swap(&mut self.output, &mut lines);
        assert(lines_view(&self.output) =~= Seq::empty());
        lines
    }

    fn exhausted_error() -> (error: RuntimeError)
        ensures
            error@ == exhausted(),
    {
        RuntimeError::new(
            Token::new(Types::EOF, "".to_string(), Literal::Nil, 0),
            "Evaluation budget exhausted.".to_string(),
        )
    }

    fn error(token: &Token, message: &str) -> (error: RuntimeError)
        ensures
            error@ == error_with(token@, message@),
    {
        RuntimeError::new(token.clone(), message.to_string())
    }

    fn draw_id(&mut self) -> (id: usize)
        ensures
            final(self)@ == drew(old(self)@),
            final(self).log() == old(self).log().push(id as u64),
            final(self).environments == old(self).environments,
            final(self).environment == old(self).environment,
            final(self).globals == old(self).globals,
            final(self).locals == old(self).locals,
    {
        let id = random_id();
        proof {
            self.outside@ = self.outside@.push(id as u64);
        }
        id
    }

    fn draw_seconds(&mut self) -> (seconds: u64)
        ensures
            final(self)@ == drew(old(self)@),
            final(self).log() == old(self).log().push(seconds),
            final(self).environments == old(self).environments,
            final(self).environment == old(self).environment,
            final(self).globals == old(self).globals,
            final(self).locals == old(self).locals,
    {
        let seconds = reading_of(unix_seconds());
        proof {
            self.outside@ = self.outside@.push(seconds);
        }
        seconds
    }

    fn count(&mut self)
        ensures
            final(self)@ == counted(old(self)@),
            final(self).log() == old(self).log(),
            final(self).environments == old(self).environments,
            final(self).environment == old(self).environment,
            final(self).globals == old(self).globals,
            final(self).locals == old(self).locals,
    {
        if self.functions < u64::MAX {
            self.functions += 1;
        }
    }

    /// Drops the environments from the `length`-th on, where no function
    /// value was made since there were `made` of them.
    fn release(&mut self, length: usize, made: u64, Ghost(before): Ghost<InterpreterView>)
        requires
            before.environments.len() == length,
            before.functions == made,
            length <= old(self).environments.len(),
        ensures
            final(self)@ == released(before, old(self)@),
            final(self).log() == old(self).log(),
            final(self).environments.len() >= length,
            final(self).environment == old(self).environment,
            final(self).globals == old(self).globals,
            final(self).locals == old(self).locals,
    {
        if self.functions == made && made < u64::MAX {
            self.environments.truncate(length);
            assert(environments_view(&self.environments) =~= old(self)@.environments.take(
                length as int,
            ));
        }
    }

    fn emit(&mut self, text: String)
        ensures
            final(self)@ == printed(old(self)@, text@),
            final(self).log() == old(self).log(),
            final(self).environments == old(self).environments,
            final(self).environment == old(self).environment,
            final(self).globals == old(self).globals,
            final(self).locals == old(self).locals,
    {
        self.output.push(text);
        assert(lines_view(&self.output) =~= lines_view(&old(self).output).push(text@));
    }

    fn define(&mut self, name: String, value: Literal)
        requires
            old(self).wf(),
        ensures
            final(self)@ == define_here(old(self)@, name@, value@),
            final(self).log() == old(self).log(),
            final(self).environments.len() == old(self).environments.len(),
            final(self).environment == old(self).environment,
            final(self).globals == old(self).globals,
            final(self).locals == old(self).locals,
    {
        let ghost before = environments_view(&self.environments);
        let ghost key = name@;
        let ghost stored = value@;
        let at = self.environment;
        self.environments[at].define(name, value);
        assert(environments_view(&self.environments) =~= before.update(
            at as int,
            defined(before[at as int], key, stored),
        ));
    }

    fn store(&mut self, environment: Environment) -> (index: usize)
        ensures
            final(self)@ == stored(old(self)@, environment@),
            index == old(self).environments.len(),
            final(self).environments.len() == old(self).environments.len() + 1,
            final(self).log() == old(self).log(),
            final(self).environment == old(self).environment,
            final(self).globals == old(self).globals,
            final(self).locals == old(self).locals,
    {
        let index = self.environments.len();
        self.environments.push(environment);
        assert(environments_view(&self.environments) =~= environments_view(
            &old(self).environments,
        ).push(environment@));
        index
    }

    fn lookup_variable(&self, name: &Token, id: u64) -> (r: RuntimeResult<Literal>)
        ensures
            value_result(r) == lookup_spec(self@, name@, id),
    {
        match self.locals.get(&id) {
            Some(distance) => Environment::get_at(
                &self.environments,
                self.environment,
                *distance,
                name,
            ),
            None => Environment::get_at(&self.environments, self.globals, 0, name),
        }
    }

    fn assign_variable(&mut self, name: &Token, id: u64, value: Literal) -> (r: RuntimeResult<()>)
        ensures
            match assigned(old(self)@, name@, id, value@) {
                Ok(state) => r is Ok && final(self)@ == state,
                Err(error) => r matches Err(e) && e@ == error && final(self)@ == old(self)@,
            },
            final(self).log() == old(self).log(),
            final(self).environments.len() == old(self).environments.len(),
            final(self).environment == old(self).environment,
            final(self).globals == old(self).globals,
            final(self).locals == old(self).locals,
    {
        let found = match self.locals.get(&id) {
            Some(distance) => Some(*distance),
            None => None,
        };
        match found {
            Some(distance) => Environment::assign_at(
                &mut self.environments,
                self.environment,
                distance,
                name,
                value,
            ),
            None => Environment::assign_at(&mut self.environments, self.globals, 0, name, value),
        }
    }
}

/// Appends a value to a list.
pub fn push_value(values: &mut Vec<Literal>, value: Literal)
    ensures
        values_view(final(values)) == values_view(old(values)).push(value@),
        final(values).len() == old(values).len() + 1,
{
    values.push(value);
    assert(values_view(values) =~= values_view(old(values)).push(value@));
}

/// The value that is the function `f`.
pub fn function_value(f: LuxFunction) -> (value: Literal)
    ensures
        value@ == LiteralView::Function(Box::new(f@)),
{
    Literal::Function(Box::new(f))
}

impl Clock {
    /// Reads the time: the seconds since the Unix epoch, as a number.
    pub fn call(&self, interpreter: &mut Interpreter) -> (r: RuntimeResult<Literal>)
        requires
            old(interpreter).wf(),
        ensures
            final(interpreter).follows(*old(interpreter)),
            final(interpreter)@ == drew(old(interpreter)@),
            final(interpreter).log().len() == old(interpreter).log().len() + 1,
            r matches Ok(value) && value@ == LiteralView::Number(
                integer_bits(final(interpreter).log().last()),
            ),
    {
        let seconds = interpreter.draw_seconds();
        Ok(Literal::Number(Float(ieee_from_integer(seconds))))
    }
}

impl LuxFunction {
    /// Calls the function: its body runs in a new environment within its
    /// closure, which holds the parameters. What the body returns is the
    /// result; `nil` where it returns nothing.
    pub fn call(
        &self,
        interpreter: &mut Interpreter,
        paren: &Token,
        arguments: Vec<Literal>,
        depth: usize,
    ) -> (r: RuntimeResult<Literal>)
        requires
            old(interpreter).wf(),
            arguments.len() == self@.declaration.param.len(),
        ensures
            final(interpreter).follows(*old(interpreter)),
            forall|o: Oracle| #[trigger]
                foretold(o, final(interpreter).log()) ==> function_call_spec(
                    old(interpreter)@,
                    self@,
                    paren@,
                    values_view(&arguments),
                    depth as nat,
                    o,
                ) == (Evaluated { state: final(interpreter)@, result: value_result(r) }),
        decreases depth, 3nat, 0nat,
    {
        if self.closure >= interpreter.environments.len() {
            return Err(Interpreter::error(paren, "Unknown closure."));
        }
        let mut environment = Environment::new_with(self.closure);
        let n = self.declaration.param.len();
        let mut i: usize = 0;
        while i < n
            invariant
                i <= n,
                n == self.declaration.param.len(),
                n == arguments.len(),
                environment@ == (EnvironmentView {
                    values: bound(
                        tokens_view(&self.declaration.param),
                        values_view(&arguments),
                        i as nat,
                    ),
                    enclosing: Some(self.closure),
                }),
            decreases n - i,
        {
            environment.define(self.declaration.param[i].lexeme.clone(), arguments[i].clone());
            i += 1;
        }
        let made = interpreter.functions;
        let index = interpreter.store(environment);
        let declaration = share(&self.declaration);
        let result = interpreter.execute_block(&declaration.body, index, depth);
        interpreter.release(index, made, Ghost(old(interpreter)@));
        match result {
            Ok(Some(value)) => Ok(value),
            Ok(None) => Ok(Literal::Nil),
            Err(error) => Err(error),
        }
    }
}

impl Interpreter {
    fn check_number_operand(operator: &Token, operand: &Literal) -> (r: RuntimeResult<Float>)
        ensures
            match operand@ {
                LiteralView::Number(bits) => r matches Ok(n) && n.0 == bits,
                _ => r matches Err(e) && e@ == error_with(operator@, "Operand must be a number."@),
            },
    {
        match operand {
            Literal::Number(n) => Ok(*n),
            _ => Err(Self::error(operator, "Operand must be a number.")),
        }
    }

    fn check_number_operands(operator: &Token, left: &Literal, right: &Literal) -> (r:
        RuntimeResult<(Float, Float)>)
        ensures
            match (left@, right@) {
                (LiteralView::Number(a), LiteralView::Number(b)) => r matches Ok(pair) && pair.0.0
                    == a && pair.1.0 == b,
                _ => r matches Err(e) && e@ == error_with(operator@, "Operands must be numbers."@),
            },
    {
        match (left, right) {
            (Literal::Number(a), Literal::Number(b)) => Ok((*a, *b)),
            _ => Err(Self::error(operator, "Operands must be numbers.")),
        }
    }

    fn numeric(kind: Types, a: Float, b: Float) -> (value: Literal)
        ensures
            value@ == numeric_spec(kind, a.0, b.0),
    {
        if kind == Types::MINUS {
            Literal::Number(a.sub(b))
        } else if kind == Types::SLASH {
            Literal::Number(a.div(b))
        } else if kind == Types::STAR {
            Literal::Number(a.mul(b))
        } else if kind == Types::PLUS {
            Literal::Number(a.add(b))
        } else if kind == Types::GREATER {
            Literal::Bool(b.less(a))
        } else if kind == Types::GREATER_EQUAL {
            Literal::Bool(b.less_equal(a))
        } else if kind == Types::LESS {
            Literal::Bool(a.less(b))
        } else {
            Literal::Bool(a.less_equal(b))
        }
    }

    fn unary(operator: &Token, right: Literal) -> (r: RuntimeResult<Literal>)
        ensures
            value_result(r) == unary_spec(operator@, right@),
    {
        if operator.type_t == Types::MINUS {
            match Self::check_number_operand(operator, &right) {
                Ok(n) => Ok(Literal::Number(n.neg())),
                Err(error) => Err(error),
            }
        } else if operator.type_t == Types::BANG {
            Ok(Literal::Bool(!right.is_truthy()))
        } else {
            Err(Self::error(operator, "not implemented"))
        }
    }

    fn binary(operator: &Token, left: Literal, right: Literal) -> (r: RuntimeResult<Literal>)
        ensures
            value_result(r) == binary_spec(operator@, left@, right@),
    {
        let kind = operator.type_t;
        if kind == Types::BANG_EQUAL {
            Ok(Literal::Bool(!left.equals(&right)))
        } else if kind == Types::EQUAL_EQUAL {
            Ok(Literal::Bool(left.equals(&right)))
        } else if kind == Types::PLUS {
            match (left, right) {
                (Literal::Number(a), Literal::Number(b)) => Ok(Self::numeric(kind, a, b)),
                (Literal::String(a), Literal::String(b)) => {
                    let mut text = a;
                    text.append(b.as_str());
                    Ok(Literal::String(text))
                },
                _ => Err(Self::error(operator, "Operands must be two numbers or two strings.")),
            }
        } else if kind == Types::MINUS || kind == Types::SLASH || kind == Types::STAR || kind
            == Types::GREATER || kind == Types::GREATER_EQUAL || kind == Types::LESS || kind
            == Types::LESS_EQUAL {
            match Self::check_number_operands(operator, &left, &right) {
                Ok(pair) => Ok(Self::numeric(kind, pair.0, pair.1)),
                Err(error) => Err(error),
            }
        } else {
            Err(Self::error(operator, "Operator type not implemented!"))
        }
    }

    fn arity_error(paren: &Token, expected: usize, got: usize) -> (error: RuntimeError)
        ensures
            error@ == error_with(paren@, arity_message(expected as nat, got as nat)),
    {
        let mut message = "Expected ".to_string();
        message.append(decimal(expected).as_str());
        message.append(" arguments but got ");
        message.append(decimal(got).as_str());
        message.append(".");
        RuntimeError::new(paren.clone(), message)
    }

    /// Calls `callee` on `arguments`.
    fn call_value(&mut self, callee: Literal, paren: &Token, arguments: Vec<Literal>, depth: usize)
        -> (r: RuntimeResult<Literal>)
        requires
            old(self).wf(),
        ensures
            final(self).follows(*old(self)),
            forall|o: Oracle| #[trigger]
                foretold(o, final(self).log()) ==> call_spec(
                    old(self)@,
                    callee@,
                    paren@,
                    values_view(&arguments),
                    depth as nat,
                    o,
                ) == (Evaluated { state: final(self)@, result: value_result(r) }),
        decreases depth, 4nat, 0nat,
    {
        match callee {
            Literal::Clock(clock) => {
                if arguments.len() != clock.arity() {
                    Err(Self::arity_error(paren, clock.arity(), arguments.len()))
                } else {
                    clock.call(self)
                }
            },
            Literal::Function(function) => {
                if arguments.len() != function.arity() {
                    Err(Self::arity_error(paren, function.arity(), arguments.len()))
                } else {
                    function.call(self, paren, arguments, depth)
                }
            },
            _ => Err(Self::error(paren, "Can only call functions and classes.")),
        }
    }

    /// Evaluates the expressions from left to right.
    fn evaluate_arguments(&mut self, arguments: &Vec<Expr>, depth: usize) -> (r: RuntimeResult<
        Vec<Literal>,
    >)
        requires
            old(self).wf(),
        ensures
            final(self).follows(*old(self)),
            forall|o: Oracle| #[trigger]
                foretold(o, final(self).log()) ==> evaluate_list_spec(
                    old(self)@,
                    exprs_view(arguments),
                    0,
                    Seq::empty(),
                    depth as nat,
                    o,
                ) == (EvaluatedList {
                    state: final(self)@,
                    result: match r {
                        Ok(values) => Ok(values_view(&values)),
                        Err(error) => Err(error@),
                    },
                }),
        decreases depth, 1nat, 0nat,
    {
        let mut values: Vec<Literal> = Vec::new();
        assert(values_view(&values) =~= Seq::empty());
        let mut i: usize = 0;
        while i < arguments.len()
            invariant
                i <= arguments.len(),
                self.follows(*old(self)),
                forall|o: Oracle| #[trigger]
                    foretold(o, self.log()) ==> evaluate_list_spec(
                        old(self)@,
                        exprs_view(arguments),
                        0,
                        Seq::empty(),
                        depth as nat,
                        o,
                    ) == evaluate_list_spec(
                        self@,
                        exprs_view(arguments),
                        i as nat,
                        values_view(&values),
                        depth as nat,
                        o,
                    ),
            decreases arguments.len() - i,
        {
            let value = match self.evaluate(&arguments[i], depth) {
                Ok(value) => value,
                Err(error) => {
                    return Err(error);
                },
            };
            push_value(&mut values, value);
            i += 1;
        }
        Ok(values)
    }

    /// Evaluates an expression, within `depth` nested steps.
    pub fn evaluate(&mut self, expr: &Expr, depth: usize) -> (r: RuntimeResult<Literal>)
        requires
            old(self).wf(),
        ensures
            final(self).follows(*old(self)),
            forall|o: Oracle| #[trigger]
                foretold(o, final(self).log()) ==> evaluate_spec(
                    old(self)@,
                    expr@,
                    depth as nat,
                    o,
                ) == (Evaluated { state: final(self)@, result: value_result(r) }),
        decreases depth, 0nat, 0nat,
    {
        if depth == 0 {
            return Err(Self::exhausted_error());
        }
        let d = depth - 1;
        match expr {
            Expr::Binary { left, right, operator } => {
                let eval_left = match self.evaluate(left, d) {
                    Ok(value) => value,
                    Err(error) => {
                        return Err(error);
                    },
                };
                let eval_right = match self.evaluate(right, d) {
                    Ok(value) => value,
                    Err(error) => {
                        return Err(error);
                    },
                };
                Self::binary(operator, eval_left, eval_right)
            },
            Expr::Grouping { expression } => self.evaluate(expression, d),
            Expr::Literal { value } => Ok(value.clone()),
            Expr::Unary { operator, right } => {
                let eval_right = match self.evaluate(right, d) {
                    Ok(value) => value,
                    Err(error) => {
                        return Err(error);
                    },
                };
                Self::unary(operator, eval_right)
            },
            Expr::Nil => Ok(Literal::Nil),
            Expr::Variable { name, id } => self.lookup_variable(name, *id),
            Expr::Assign { name, value, id } => {
                let eval_val = match self.evaluate(value, d) {
                    Ok(value) => value,
                    Err(error) => {
                        return Err(error);
                    },
                };
                match self.assign_variable(name, *id, eval_val.clone()) {
                    Ok(()) => Ok(eval_val),
                    Err(error) => Err(error),
                }
            },
            Expr::Logical { left, operator, right } => {
                let eval_left = match self.evaluate(left, d) {
                    Ok(value) => value,
                    Err(error) => {
                        return Err(error);
                    },
                };
                assert(operator@.type_t == operator.type_t);
                if (operator.type_t == Types::OR) == eval_left.is_truthy() {
                    return Ok(eval_left);
                }
                self.evaluate(right, d)
            },
            Expr::Call { arguments, callee, paren } => {
                let eval_callee = match self.evaluate(callee, d) {
                    Ok(value) => value,
                    Err(error) => {
                        return Err(error);
                    },
                };
                let eval_arguments = match self.evaluate_arguments(arguments, d) {
                    Ok(values) => values,
                    Err(error) => {
                        return Err(error);
                    },
                };
                self.call_value(eval_callee, paren, eval_arguments, d)
            },
        }
    }

    /// Runs a whole program. A `return` outside a function ends it.
    pub fn interpret(&mut self, statements: &Vec<Stmt>) -> (r: RuntimeResult<()>)
        requires
            old(self).wf(),
        ensures
            final(self).follows(*old(self)),
            forall|o: Oracle| #[trigger]
                foretold(o, final(self).log()) ==> {
                    let run = execute_list_spec(
                        old(self)@,
                        stmts_view(statements),
                        0,
                        usize::MAX as nat,
                        o,
                    );
                    &&& run.state == final(self)@
                    &&& match r {
                        Ok(()) => run.result is Ok,
                        Err(error) => run.result == Err::<Option<LiteralView>, RuntimeErrorView>(
                            error@,
                        ),
                    }
                },
    {
        match self.execute_list(statements, usize::MAX) {
            Ok(_) => Ok(()),
            Err(error) => Err(error),
        }
    }

    /// Runs the statements in order, up to the first that does not end
    /// normally.
    fn execute_list(&mut self, statements: &Vec<Stmt>, depth: usize) -> (r: RuntimeResult<
        Option<Literal>,
    >)
        requires
            old(self).wf(),
        ensures
            final(self).follows(*old(self)),
            forall|o: Oracle| #[trigger]
                foretold(o, final(self).log()) ==> execute_list_spec(
                    old(self)@,
                    stmts_view(statements),
                    0,
                    depth as nat,
                    o,
                ) == (Executed { state: final(self)@, result: flow_result(r) }),
        decreases depth, 1nat, 0nat,
    {
        let mut i: usize = 0;
        while i < statements.len()
            invariant
                i <= statements.len(),
                self.follows(*old(self)),
                forall|o: Oracle| #[trigger]
                    foretold(o, self.log()) ==> execute_list_spec(
                        old(self)@,
                        stmts_view(statements),
                        0,
                        depth as nat,
                        o,
                    ) == execute_list_spec(
                        self@,
                        stmts_view(statements),
                        i as nat,
                        depth as nat,
                        o,
                    ),
            decreases statements.len() - i,
        {
            match self.execute(&statements[i], depth) {
                Ok(None) => {},
                Ok(Some(value)) => {
                    return Ok(Some(value));
                },
                Err(error) => {
                    return Err(error);
                },
            }
            i += 1;
        }
        Ok(None)
    }

    /// Runs a loop whose condition and body take at most `depth` nested
    /// steps. A loop that has gone through as many rounds as there are
    /// numbers is given up.
    fn run_while(&mut self, condition: &Expr, body: &Stmt, depth: usize) -> (r: RuntimeResult<
        Option<Literal>,
    >)
        requires
            old(self).wf(),
        ensures
            final(self).follows(*old(self)),
            forall|o: Oracle| #[trigger]
                foretold(o, final(self).log()) ==> while_spec(
                    old(self)@,
                    condition@,
                    body@,
                    depth as nat,
                    usize::MAX as nat,
                    o,
                ) == (Executed { state: final(self)@, result: flow_result(r) }),
        decreases depth, 1nat, 0nat,
    {
        let mut left = usize::MAX;
        while left > 0
            invariant
                self.follows(*old(self)),
                forall|o: Oracle| #[trigger]
                    foretold(o, self.log()) ==> while_spec(
                        old(self)@,
                        condition@,
                        body@,
                        depth as nat,
                        usize::MAX as nat,
                        o,
                    ) == while_spec(self@, condition@, body@, depth as nat, left as nat, o),
            decreases left,
        {
            let test = match self.evaluate(condition, depth) {
                Ok(value) => value,
                Err(error) => {
                    return Err(error);
                },
            };
            if !test.is_truthy() {
                return Ok(None);
            }
            match self.execute(body, depth) {
                Ok(None) => {},
                Ok(Some(value)) => {
                    return Ok(Some(value));
                },
                Err(error) => {
                    return Err(error);
                },
            }
            left -= 1;
        }
        Err(Self::exhausted_error())
    }

    /// Runs a statement, within `depth` nested steps. `None` says that it
    /// ended normally, a value that it returned that value.
    pub fn execute(&mut self, statement: &Stmt, depth: usize) -> (r: RuntimeResult<
        Option<Literal>,
    >)
        requires
            old(self).wf(),
        ensures
            final(self).follows(*old(self)),
            forall|o: Oracle| #[trigger]
                foretold(o, final(self).log()) ==> execute_spec(
                    old(self)@,
                    statement@,
                    depth as nat,
                    o,
                ) == (Executed { state: final(self)@, result: flow_result(r) }),
        decreases depth, 0nat, 0nat,
    {
        if depth == 0 {
            return Err(Self::exhausted_error());
        }
        let d = depth - 1;
        match statement {
            Stmt::Expression { expression } => {
                match self.evaluate(expression, d) {
                    Ok(_) => Ok(None),
                    Err(error) => Err(error),
                }
            },
            Stmt::Print { expression } => {
                match self.evaluate(expression, d) {
                    Ok(value) => {
                        self.emit(value.to_str());
                        Ok(None)
                    },
                    Err(error) => Err(error),
                }
            },
            Stmt::Var { name, initializer } => {
                match self.evaluate(initializer, d) {
                    Ok(value) => {
                        assert(name@.lexeme == name.lexeme@);
                        self.define(name.lexeme.clone(), value);
                        Ok(None)
                    },
                    Err(error) => Err(error),
                }
            },
            Stmt::Block { statements } => {
                let made = self.functions;
                let environment = Environment::new_with(self.environment);
                let index = self.store(environment);
                let result = self.execute_block(statements, index, d);
                self.release(index, made, Ghost(old(self)@));
                result
            },
            Stmt::If { condition, then_branch, else_branch } => {
                let eval_cond = match self.evaluate(condition, d) {
                    Ok(value) => value,
                    Err(error) => {
                        return Err(error);
                    },
                };
                if eval_cond.is_truthy() {
                    self.execute(then_branch, d)
                } else {
                    match else_branch {
                        Some(branch) => self.execute(branch, d),
                        None => Ok(None),
                    }
                }
            },
            Stmt::While { condition, body } => self.run_while(condition, body, d),
            Stmt::Function(declaration) => {
                let ghost drawn = self.log().len() as int;
                let id = self.draw_id();
                let function = LuxFunction::with_id(share(declaration), self.environment, id);
                proof {
                    assert(declaration@.name == declaration.name@);
                    assert(declaration.name@.lexeme == declaration.name.lexeme@);
                    assert(function@ == (LuxFunctionView {
                        declaration: declaration@,
                        id,
                        closure: self.environment,
                    }));
                    assert forall|o: Oracle| foretold(o, self.log()) implies o(drawn as nat)
                        as usize == id by {
                        assert(self.log()[drawn] == id as u64);
                    }
                }
                self.count();
                self.define(declaration.name.lexeme.clone(), function_value(function));
                Ok(None)
            },
            Stmt::Return { value, .. } => {
                match self.evaluate(value, d) {
                    Ok(value) => Ok(Some(value)),
                    Err(error) => Err(error),
                }
            },
        }
    }

    /// Runs the statements in the environment at `environment`. Whatever the
    /// outcome, the environment that was current is current again.
    pub fn execute_block(&mut self, statements: &Vec<Stmt>, environment: usize, depth: usize) -> (r:
        RuntimeResult<Option<Literal>>)
        requires
            old(self).wf(),
            environment < old(self).environments.len(),
        ensures
            final(self).follows(*old(self)),
            forall|o: Oracle| #[trigger]
                foretold(o, final(self).log()) ==> block_spec(
                    old(self)@,
                    stmts_view(statements),
                    environment,
                    depth as nat,
                    o,
                ) == (Executed { state: final(self)@, result: flow_result(r) }),
        decreases depth, 2nat, 0nat,
    {
        let previous = self.environment;
        self.environment = environment;
        let result = self.execute_list(statements, depth);
        self.environment = previous;
        result
    }
}

impl Default for Interpreter {
    /// An interpreter whose global environment holds the built-in `clock`.
    fn default() -> (interpreter: Interpreter)
        ensures
            interpreter.wf(),
            interpreter@.environments.len() == 1,
            interpreter@.environments[0].values.dom() == set!["clock"@],
            interpreter@.environments[0].values["clock"@] is Clock,
            interpreter@.environments[0].enclosing is None,
            interpreter@.environment == 0,
            interpreter@.globals == 0,
            interpreter@.locals == Map::<u64, usize>::empty(),
            interpreter@.output == Seq::<Seq<char>>::empty(),
    {
        let interpreter = Self::new();
        assert(interpreter@.environments[0].values.dom() =~= set!["clock"@]);
        interpreter
    }
}

} // verus!
