use crate::error::LuxErrorView;
use crate::expr::ExprView;
use crate::environment::{ancestor_spec, defined, EnvironmentView};
use crate::interpreter::{
    assigned, binary_spec, block_spec, bound, function_call_spec, lookup_spec, moved, stored,
    unary_spec, Evaluated, InterpreterView,
};
use crate::runtime_error::RuntimeErrorView;
use crate::function::LuxFunctionView;
use crate::literal::{equal_values, truthy, LiteralView};
use crate::oracle::Oracle;
use crate::parser::{desugar_for, for_clauses_spec, for_statement_spec, statement_spec};
use crate::positions::{lemma_for_clauses_within, well_ended};
use crate::resolver::{distance_spec, resolve_stmts_spec, ResolverView};
use crate::scanner::{
    digits_end, identifier_end, is_alphanumeric_spec, is_digit_spec, lemma_lex_advances, lex_spec,
    next_line, number_end, push_some, scan_source, scan_spec, string_end,
};
use crate::stmt::StmtView;
use crate::token::TokenView;
use crate::token_type::Types;
use vstd::prelude::*;

verus! {

/// Scanning is a function of the text: two sources with the same characters
/// give the same tokens and the same diagnostics.
pub proof fn law_scanner_deterministic(first: Seq<char>, second: Seq<char>)
    requires
        first =~= second,
    ensures
        scan_source(first) == scan_source(second),
{
}

/// The digits of a piece of the source end where they end in the source,
/// where the piece holds them all.
proof fn lemma_digits_end_in_piece(src: Seq<char>, start: int, from: int, end: int)
    requires
        0 <= start <= from <= digits_end(src, from) <= end <= src.len(),
    ensures
        digits_end(src.subrange(start, end), from - start) == digits_end(src, from) - start,
    decreases src.len() - from,
{
    let piece = src.subrange(start, end);
    if from < src.len() && is_digit_spec(src[from]) {
        crate::scanner::lemma_digits_end_reaches(src, from + 1);
        lemma_digits_end_in_piece(src, start, from + 1, end);
        assert(piece[from - start] == src[from]);
    } else if from < end {
        assert(piece[from - start] == src[from]);
    }
}

/// The characters of an identifier in a piece of the source end where they
/// end in the source, where the piece holds them all.
proof fn lemma_identifier_end_in_piece(src: Seq<char>, start: int, from: int, end: int)
    requires
        0 <= start <= from <= identifier_end(src, from) <= end <= src.len(),
    ensures
        identifier_end(src.subrange(start, end), from - start) == identifier_end(src, from)
            - start,
    decreases src.len() - from,
{
    let piece = src.subrange(start, end);
    if from < src.len() && is_alphanumeric_spec(src[from]) {
        crate::scanner::lemma_identifier_end_reaches(src, from + 1);
        lemma_identifier_end_in_piece(src, start, from + 1, end);
        assert(piece[from - start] == src[from]);
    } else if from < end {
        assert(piece[from - start] == src[from]);
    }
}

/// The body of a string in a piece of the source that ends behind its closing
/// quote ends where it ends in the source, on the same line.
proof fn lemma_string_end_in_piece(src: Seq<char>, start: int, from: int, end: int, line: usize)
    requires
        0 <= start <= from <= string_end(src, from, line).0 < end <= src.len(),
    ensures
        string_end(src.subrange(start, end), from - start, line) == (
            string_end(src, from, line).0 - start,
            string_end(src, from, line).1,
        ),
    decreases src.len() - from,
{
    let piece = src.subrange(start, end);
    assert(piece[from - start] == src[from]);
    if src[from] != '"' {
        let reached = if src[from] == '\n' {
            next_line(line)
        } else {
            line
        };
        crate::scanner::lemma_string_end_reaches(src, from + 1, reached);
        lemma_string_end_in_piece(src, start, from + 1, end, reached);
    }
}

/// A token's text, scanned by itself, gives the token again: the scanner
/// reads a lexeme as it read it in the source.
pub proof fn law_lexeme_scans_as_its_token(src: Seq<char>, start: int, line: usize)
    requires
        0 <= start < src.len(),
        lex_spec(src, start, line).token is Some,
    ensures
        ({
            let step = lex_spec(src, start, line);
            let token = step.token->Some_0;
            let again = lex_spec(token.lexeme, 0, line);
            &&& again.token == Some(token)
            &&& again.error is None
            &&& again.line == step.line
            &&& again.next == token.lexeme.len()
        }),
{
    let step = lex_spec(src, start, line);
    let token = step.token->Some_0;
    let c = src[start];
    lemma_lex_advances(src, start, line);
    let piece = src.subrange(start, step.next);
    assert(token.lexeme == piece);
    assert(piece[0] == c);
    if c == '"' {
        let (end, reached) = string_end(src, start + 1, line);
        crate::scanner::lemma_string_end_reaches(src, start + 1, line);
        lemma_string_end_in_piece(src, start, start + 1, end + 1, line);
        assert(piece.subrange(0, piece.len() as int) =~= piece);
        assert(piece.subrange(1, end - start) =~= src.subrange(start + 1, end));
        assert(lex_spec(piece, 0, line).token == Some(token));
    } else if is_digit_spec(c) {
        let whole = digits_end(src, start + 1);
        let end = number_end(src, start);
        crate::scanner::lemma_digits_end_reaches(src, start + 1);
        if whole + 1 < src.len() {
            crate::scanner::lemma_digits_end_reaches(src, whole + 1);
        }
        lemma_digits_end_in_piece(src, start, start + 1, end);
        if end > whole {
            crate::scanner::lemma_digits_end_reaches(src, whole + 2);
            lemma_digits_end_in_piece(src, start, whole + 1, end);
            assert(piece[whole - start] == src[whole]);
            assert(piece[whole + 1 - start] == src[whole + 1]);
        }
        assert(piece.subrange(0, piece.len() as int) =~= piece);
        assert(lex_spec(piece, 0, line).token == Some(token));
    } else if crate::scanner::is_alpha_spec(c) {
        let end = identifier_end(src, start + 1);
        crate::scanner::lemma_identifier_end_reaches(src, start + 1);
        lemma_identifier_end_in_piece(src, start, start + 1, end);
        assert(piece.subrange(0, piece.len() as int) =~= piece);
        assert(lex_spec(piece, 0, line).token == Some(token));
    } else {
        if step.next == start + 2 {
            assert(piece[1] == src[start + 1]);
        }
        assert(piece.subrange(0, piece.len() as int) =~= piece);
        assert(lex_spec(piece, 0, line).token == Some(token));
    }
}

/// Whether no token of `tokens` is of kind `EOF`.
pub open spec fn no_eof(tokens: Seq<TokenView>) -> bool {
    forall|i: int| 0 <= i < tokens.len() ==> (#[trigger] tokens[i]).type_t != Types::EOF
}

/// A scan adds tokens that are no `EOF`, and then one `EOF`.
pub proof fn lemma_scan_ends_with_eof(
    src: Seq<char>,
    pos: int,
    line: usize,
    tokens: Seq<TokenView>,
    errors: Seq<LuxErrorView>,
)
    requires
        no_eof(tokens),
    ensures
        scan_spec(src, pos, line, tokens, errors).tokens.len() > 0,
        scan_spec(src, pos, line, tokens, errors).tokens.last().type_t == Types::EOF,
        no_eof(scan_spec(src, pos, line, tokens, errors).tokens.drop_last()),
    decreases src.len() - pos,
{
    if pos < 0 || pos >= src.len() {
        let all = scan_spec(src, pos, line, tokens, errors).tokens;
        assert(all.drop_last() =~= tokens);
    } else {
        let step = lex_spec(src, pos, line);
        lemma_lex_advances(src, pos, line);
        let more = push_some(tokens, step.token);
        assert forall|i: int| 0 <= i < more.len() implies (#[trigger] more[i]).type_t
            != Types::EOF by {
            if i < tokens.len() {
                assert(more[i] == tokens[i]);
            }
        }
        lemma_scan_ends_with_eof(src, step.next, step.line, more, push_some(errors, step.error));
    }
}

/// The tokens of every source end with exactly one `EOF` token.
pub proof fn law_tokens_end_with_one_eof(source: Seq<char>)
    ensures
        scan_source(source).tokens.len() > 0,
        scan_source(source).tokens.last().type_t == Types::EOF,
        no_eof(scan_source(source).tokens.drop_last()),
{
    lemma_scan_ends_with_eof(source, 0, 1, Seq::empty(), Seq::empty());
}

/// What `distance_spec` finds among the first `within` scopes is the nearest
/// of them that declares `name`.
pub proof fn lemma_distance_is_nearest(
    scopes: Seq<Map<Seq<char>, bool>>,
    name: Seq<char>,
    within: nat,
)
    requires
        within <= scopes.len() <= usize::MAX,
    ensures
        match distance_spec(scopes, name, within) {
            Some(distance) => {
                &&& scopes.len() - within <= distance < scopes.len()
                &&& scopes[scopes.len() - 1 - distance].contains_key(name)
                &&& forall|i: int|
                    scopes.len() - 1 - distance < i < within ==> !(#[trigger] scopes[i]).contains_key(
                        name,
                    )
            },
            None => forall|i: int| 0 <= i < within ==> !(#[trigger] scopes[i]).contains_key(name),
        },
    decreases within,
{
    if within > 0 && !scopes[within - 1].contains_key(name) {
        lemma_distance_is_nearest(scopes, name, (within - 1) as nat);
    }
}

/// A use of a name is bound to the nearest scope that declares it: the
/// distance counts the scopes between the innermost scope and that one, and
/// a name that no scope declares has no distance.
pub proof fn law_distance_is_to_the_nearest_scope(
    scopes: Seq<Map<Seq<char>, bool>>,
    name: Seq<char>,
)
    requires
        scopes.len() <= usize::MAX,
    ensures
        match distance_spec(scopes, name, scopes.len()) {
            Some(distance) => {
                &&& distance < scopes.len()
                &&& scopes[scopes.len() - 1 - distance].contains_key(name)
                &&& forall|i: int|
                    scopes.len() - 1 - distance < i < scopes.len() ==> !(#[trigger] scopes[i]).contains_key(
                        name,
                    )
            },
            None => forall|i: int|
                0 <= i < scopes.len() ==> !(#[trigger] scopes[i]).contains_key(name),
        },
{
    lemma_distance_is_nearest(scopes, name, scopes.len());
}

/// The resolver is idempotent: where a run over `stmts` has recorded its
/// distances on top of `locals`, a second run from the same state records the
/// same distances and so changes nothing.
pub proof fn law_resolver_idempotent(
    state: ResolverView,
    stmts: Seq<StmtView>,
    locals: Map<u64, usize>,
)
    ensures
        ({
            let writes = resolve_stmts_spec(state, stmts, 0, Map::empty()).writes;
            locals.union_prefer_right(writes).union_prefer_right(writes)
                == locals.union_prefer_right(writes)
        }),
{
    let writes = resolve_stmts_spec(state, stmts, 0, Map::empty()).writes;
    assert(locals.union_prefer_right(writes).union_prefer_right(writes)
        =~= locals.union_prefer_right(writes));
}

/// Closure capture is lexical: a call does not depend on the environment it
/// is made from. The body runs within the function's closure, whatever
/// environment is current at the call, and that environment is current again
/// afterwards.
pub proof fn law_call_is_lexical(
    s: InterpreterView,
    elsewhere: usize,
    f: LuxFunctionView,
    paren: TokenView,
    arguments: Seq<LiteralView>,
    depth: nat,
    o: Oracle,
)
    ensures
        function_call_spec(moved(s, elsewhere), f, paren, arguments, depth, o) == (Evaluated {
            state: moved(function_call_spec(s, f, paren, arguments, depth, o).state, elsewhere),
            result: function_call_spec(s, f, paren, arguments, depth, o).result,
        }),
{
    reveal_with_fuel(function_call_spec, 2);
    reveal_with_fuel(block_spec, 2);
    if f.closure < s.environments.len() {
        let index = s.environments.len() as usize;
        let here = stored(s, crate::environment::EnvironmentView {
            values: crate::interpreter::bound(
                f.declaration.param,
                arguments,
                f.declaration.param.len(),
            ),
            enclosing: Some(f.closure),
        });
        let there = stored(moved(s, elsewhere), crate::environment::EnvironmentView {
            values: crate::interpreter::bound(
                f.declaration.param,
                arguments,
                f.declaration.param.len(),
            ),
            enclosing: Some(f.closure),
        });
        assert(moved(here, index) == moved(there, index));
    }
}

/// The environment that is found some steps out is in the store, and it is
/// found the same when an environment is added to the store.
proof fn lemma_ancestor_stays(
    environments: Seq<EnvironmentView>,
    added: EnvironmentView,
    at: usize,
    distance: nat,
)
    requires
        ancestor_spec(environments, at, distance) is Some,
    ensures
        ancestor_spec(environments, at, distance)->Some_0 < environments.len(),
        ancestor_spec(environments.push(added), at, distance) == ancestor_spec(
            environments,
            at,
            distance,
        ),
    decreases distance,
{
    if distance > 0 {
        let outer = environments[at as int].enclosing->Some_0;
        lemma_ancestor_stays(environments, added, outer, (distance - 1) as nat);
        assert(environments.push(added)[at as int] == environments[at as int]);
    }
}

/// The body of a function reads and writes a captured name in the
/// environment that holds it from the function's closure on, whatever
/// environment the call is made from. In the state in which the body of `f`
/// starts, a name that is bound `distance` environments out, in the
/// environment `owner` that lies `distance - 1` out of the closure:
/// is read as the value that `owner` holds at the call; is written in
/// `owner` and nowhere else; and is then read as the value written.
pub proof fn law_captured_names_live_in_the_closure(
    s: InterpreterView,
    f: LuxFunctionView,
    arguments: Seq<LiteralView>,
    name: TokenView,
    id: u64,
    owner: usize,
    value: LiteralView,
)
    requires
        s.environments.len() < usize::MAX,
        s.locals.contains_key(id),
        s.locals[id] >= 1,
        ancestor_spec(s.environments, f.closure, (s.locals[id] - 1) as nat) == Some(owner),
        s.environments[owner as int].values.contains_key(name.lexeme),
    ensures
        ({
            let frame = EnvironmentView {
                values: bound(f.declaration.param, arguments, f.declaration.param.len()),
                enclosing: Some(f.closure),
            };
            let inside = moved(stored(s, frame), s.environments.len() as usize);
            let written = InterpreterView {
                environments: inside.environments.update(
                    owner as int,
                    defined(s.environments[owner as int], name.lexeme, value),
                ),
                ..inside
            };
            &&& owner < s.environments.len()
            &&& lookup_spec(inside, name, id) == Ok::<LiteralView, RuntimeErrorView>(
                s.environments[owner as int].values[name.lexeme],
            )
            &&& assigned(inside, name, id, value) == Ok::<InterpreterView, RuntimeErrorView>(
                written,
            )
            &&& forall|other: int|
                0 <= other < inside.environments.len() && other != owner
                    ==> #[trigger] written.environments[other] == inside.environments[other]
            &&& lookup_spec(written, name, id) == Ok::<LiteralView, RuntimeErrorView>(value)
        }),
{
    let frame = EnvironmentView {
        values: bound(f.declaration.param, arguments, f.declaration.param.len()),
        enclosing: Some(f.closure),
    };
    let index = s.environments.len() as usize;
    let inside = moved(stored(s, frame), index);
    let distance = s.locals[id] as nat;
    lemma_ancestor_stays(s.environments, frame, f.closure, (distance - 1) as nat);
    assert(inside.environments[index as int] == frame);
    assert(ancestor_spec(inside.environments, index, distance) == Some(owner));
    assert(inside.environments[owner as int] == s.environments[owner as int]);
    let written = InterpreterView {
        environments: inside.environments.update(
            owner as int,
            defined(s.environments[owner as int], name.lexeme, value),
        ),
        ..inside
    };
    lemma_ancestor_after_write(
        inside.environments,
        owner,
        defined(s.environments[owner as int], name.lexeme, value),
        index,
        distance,
    );
}

/// Writing a name in an environment moves no environment: what is found
/// some steps out is found the same afterwards.
proof fn lemma_ancestor_after_write(
    environments: Seq<EnvironmentView>,
    owner: usize,
    changed: EnvironmentView,
    at: usize,
    distance: nat,
)
    requires
        owner < environments.len(),
        changed.enclosing == environments[owner as int].enclosing,
    ensures
        ancestor_spec(environments.update(owner as int, changed), at, distance) == ancestor_spec(
            environments,
            at,
            distance,
        ),
    decreases distance,
{
    if at < environments.len() && distance > 0 {
        match environments[at as int].enclosing {
            Some(outer) => {
                lemma_ancestor_after_write(
                    environments,
                    owner,
                    changed,
                    outer,
                    (distance - 1) as nat,
                );
            },
            None => {},
        }
    }
}

/// A function value captures the environment in which its declaration is
/// executed: that environment is its closure, and the declaration's name is
/// bound to the value there.
pub proof fn law_function_captures_its_environment(
    s: InterpreterView,
    declaration: crate::function::FunctionView,
    depth: nat,
    o: Oracle,
)
    requires
        depth > 0,
        s.environment < s.environments.len(),
    ensures
        ({
            let after = crate::interpreter::execute_spec(
                s,
                StmtView::Function(declaration),
                depth,
                o,
            ).state;
            let bindings = after.environments[s.environment as int].values;
            &&& after.environment == s.environment
            &&& bindings.contains_key(declaration.name.lexeme)
            &&& bindings[declaration.name.lexeme] matches LiteralView::Function(f)
            &&& f.closure == s.environment
            &&& f.declaration == declaration
        }),
{
}

/// The environments of a block or a call in which a function value was made
/// stay in the store.
pub proof fn law_captured_environments_stay(before: InterpreterView, after: InterpreterView)
    requires
        after.functions != before.functions,
    ensures
        crate::interpreter::released(before, after) == after,
{
}

/// Negating a value twice gives `true` exactly where the value is truthy.
pub proof fn law_double_negation(bang: TokenView, value: LiteralView)
    requires
        bang.type_t == Types::BANG,
    ensures
        unary_spec(bang, value) == Ok::<LiteralView, crate::runtime_error::RuntimeErrorView>(
            LiteralView::Bool(!truthy(value)),
        ),
        unary_spec(bang, LiteralView::Bool(!truthy(value))) == Ok::<
            LiteralView,
            crate::runtime_error::RuntimeErrorView,
        >(LiteralView::Bool(truthy(value))),
{
}

/// `a == b` holds exactly where `!(a != b)` does.
pub proof fn law_equal_is_not_unequal(
    equal: TokenView,
    unequal: TokenView,
    bang: TokenView,
    a: LiteralView,
    b: LiteralView,
)
    requires
        equal.type_t == Types::EQUAL_EQUAL,
        unequal.type_t == Types::BANG_EQUAL,
        bang.type_t == Types::BANG,
    ensures
        binary_spec(unequal, a, b) == Ok::<LiteralView, crate::runtime_error::RuntimeErrorView>(
            LiteralView::Bool(!equal_values(a, b)),
        ),
        binary_spec(equal, a, b) == unary_spec(bang, LiteralView::Bool(!equal_values(a, b))),
{
}

/// The statement of a `for` loop, by its parts: the loop's body, followed by
/// the increment in a block where there is one; under a `while` of the
/// condition, or of `true` where there is none; behind the initializer in a
/// block where there is one. Each part occurs once: the initializer before
/// the loop, the increment behind the body inside it.
pub proof fn law_for_lowering(
    initializer: Option<StmtView>,
    condition: Option<ExprView>,
    increment: Option<ExprView>,
    body: StmtView,
)
    ensures
        ({
            let stepped = match increment {
                Some(expression) => StmtView::Block {
                    statements: seq![body, StmtView::Expression { expression }],
                },
                None => body,
            };
            let test = match condition {
                Some(expression) => expression,
                None => ExprView::Literal { value: LiteralView::Bool(true) },
            };
            let looped = StmtView::While { condition: test, body: Box::new(stepped) };
            desugar_for(initializer, condition, increment, body) == match initializer {
                Some(statement) => StmtView::Block { statements: seq![statement, looped] },
                None => looped,
            }
        }),
{
}

/// Where a `for` statement parses, its clauses and its body parse, the body
/// right behind the clauses, and the statement is the lowering of what they
/// gave; nothing else is recorded.
pub proof fn law_for_statement_lowers(
    ts: Seq<TokenView>,
    base: u64,
    pos: int,
    errors: Seq<LuxErrorView>,
)
    requires
        well_ended(ts),
        0 <= pos < ts.len(),
        for_statement_spec(ts, base, pos, errors).result is Ok,
    ensures
        ({
            let clauses = for_clauses_spec(ts, base, pos, errors);
            let body = statement_spec(ts, base, clauses.pos, clauses.errors);
            let parsed = for_statement_spec(ts, base, pos, errors);
            &&& clauses.result is Ok
            &&& body.result is Ok
            &&& parsed.result == Ok::<StmtView, LuxErrorView>(
                desugar_for(
                    clauses.result->Ok_0.0,
                    clauses.result->Ok_0.1,
                    clauses.result->Ok_0.2,
                    body.result->Ok_0,
                ),
            )
            &&& parsed.pos == body.pos
            &&& parsed.errors == body.errors
        }),
{
    lemma_for_clauses_within(ts, base, pos, errors);
}

/// A `for` loop with all its parts is the block of its initializer and a
/// `while` loop, whose body is the block of the loop's body and its
/// increment; so it runs as that block does.
pub proof fn law_for_is_block_and_while(
    initializer: StmtView,
    condition: ExprView,
    increment: ExprView,
    body: StmtView,
)
    ensures
        desugar_for(Some(initializer), Some(condition), Some(increment), body)
            == (StmtView::Block {
            statements: seq![
                initializer,
                StmtView::While {
                    condition,
                    body: Box::new(
                        StmtView::Block {
                            statements: seq![body, StmtView::Expression { expression: increment }],
                        },
                    ),
                },
            ],
        }),
{
}

} // verus!
