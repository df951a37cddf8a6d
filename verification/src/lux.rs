use crate::error::{error_text, errors_view, push_error, LuxError, LuxErrorView};
use crate::interpreter::{execute_list_spec, lines_view, Interpreter, InterpreterView};
use crate::oracle::{foretold, Oracle};
use crate::parser::{lemma_program_ends, node_id, program_spec, terminated, Parsed, Parser};
use crate::resolver::{resolve_stmts_spec, Resolved, Resolver, ResolverView};
use crate::runtime_error::runtime_error_text;
use crate::scanner::{scan_source, Scanner};
use crate::stmt::{stmts_view, Stmt, StmtView};
use crate::token::tokens_view;
use vstd::prelude::*;

verus! {

/// The state of the driver: whether the last source had a scan or parse
/// error, whether it failed while running, and the number from which the
/// nodes of the next source are numbered.
pub struct Lux {
    pub had_error: bool,
    pub had_runtime_error: bool,
    pub next_id: u64,
}

/// What parsing the tokens of `source` gives, with nodes numbered from `base`.
pub open spec fn front_spec(source: Seq<char>, base: u64) -> Parsed<Seq<StmtView>> {
    program_spec(
        terminated(scan_source(source).tokens),
        base,
        0,
        Seq::empty(),
        Seq::empty(),
    )
}

/// The diagnostics of `source`: those of the scanner, then those of the
/// parser.
pub open spec fn diagnostics_spec(source: Seq<char>, base: u64) -> Seq<LuxErrorView> {
    scan_source(source).errors + front_spec(source, base).errors
}

/// Appends clones of the diagnostics in `more` to `errors`.
pub fn append_errors(errors: &mut Vec<LuxError>, more: &Vec<LuxError>)
    ensures
        errors_view(final(errors)) == errors_view(old(errors)) + errors_view(more),
{
    let mut i: usize = 0;
    while i < more.len()
        invariant
            i <= more.len(),
            errors_view(errors) == errors_view(old(errors)) + errors_view(more).subrange(
                0,
                i as int,
            ),
        decreases more.len() - i,
    {
        push_error(errors, more[i].clone());
        assert(errors_view(more).subrange(0, i + 1) =~= errors_view(more).subrange(
            0,
            i as int,
        ).push(more[i as int]@));
        assert(errors_view(errors) =~= errors_view(old(errors)) + errors_view(more).subrange(
            0,
            i + 1,
        ));
        i += 1;
    }
    assert(errors_view(more).subrange(0, more.len() as int) =~= errors_view(more));
}

/// How a run of a source ended: the exit code, and the diagnostics to print.
pub struct Report {
    pub code: u8,
    pub diagnostics: Vec<String>,
}

/// The exit code of a run without errors.
pub const EXIT_OK: u8 = 0;

/// The exit code of a source with a scan or parse error.
pub const EXIT_SYNTAX: u8 = 65;

/// The exit code of a program that failed while running.
pub const EXIT_RUNTIME: u8 = 70;

/// The exit code of a program with a resolver error.
pub const EXIT_RESOLVER: u8 = 75;

/// The printed forms of diagnostics, in order.
pub open spec fn error_texts(errors: Seq<LuxErrorView>) -> Seq<Seq<char>> {
    Seq::new(errors.len(), |i: int| error_text(errors[i]))
}

/// What resolving `stmts` gives, from a fresh resolver.
pub open spec fn fresh_resolution(stmts: Seq<StmtView>) -> Resolved {
    resolve_stmts_spec(
        ResolverView { scopes: Seq::empty(), in_function: false },
        stmts,
        0,
        Map::empty(),
    )
}

/// Whether `report` and the interpreter `after` are what resolving and
/// running `stmts` on the interpreter `before` gives: the distances are
/// recorded; a resolver error is reported, and nothing runs; otherwise the
/// program runs, and an error in it is reported.
pub open spec fn program_report(
    before: Interpreter,
    after: Interpreter,
    stmts: Seq<StmtView>,
    report: Report,
) -> bool {
    let resolved = fresh_resolution(stmts);
    &&& after.locals@ == before.locals@.union_prefer_right(resolved.writes)
    &&& match resolved.error {
        Some(error) => {
            &&& report.code == EXIT_RESOLVER
            &&& lines_view(&report.diagnostics) == seq![error_text(error)]
            &&& after.same_store(before)
        },
        None => report.code != EXIT_RESOLVER && report.code != EXIT_SYNTAX && forall|o: Oracle|
            #[trigger] foretold(o, after.log()) ==> {
                let run = execute_list_spec(
                    InterpreterView {
                        locals: before.locals@.union_prefer_right(resolved.writes),
                        ..before@
                    },
                    stmts,
                    0,
                    usize::MAX as nat,
                    o,
                );
                &&& run.state == after@
                &&& match run.result {
                    Ok(_) => report.code == EXIT_OK && lines_view(&report.diagnostics) == Seq::<
                        Seq<char>,
                    >::empty(),
                    Err(error) => report.code == EXIT_RUNTIME && lines_view(&report.diagnostics)
                        == seq![runtime_error_text(error)],
                }
            },
    }
}

/// Whether `report` and the interpreter `after` are what running `source` on
/// the interpreter `before` gives, with nodes numbered from `base`: scan and
/// parse diagnostics are reported, and nothing else happens; without them the
/// program is resolved and run.
pub open spec fn source_report(
    before: Interpreter,
    after: Interpreter,
    source: Seq<char>,
    base: u64,
    report: Report,
) -> bool {
    if diagnostics_spec(source, base).len() > 0 {
        &&& report.code == EXIT_SYNTAX
        &&& lines_view(&report.diagnostics) == error_texts(diagnostics_spec(source, base))
        &&& after == before
    } else {
        program_report(before, after, front_spec(source, base).result->Ok_0, report)
    }
}

/// The printed forms of `errors`, in order.
pub fn texts_of(errors: &Vec<LuxError>) -> (texts: Vec<String>)
    ensures
        lines_view(&texts) == error_texts(errors_view(errors)),
{
    let mut texts: Vec<String> = Vec::new();
    let mut i: usize = 0;
    while i < errors.len()
        invariant
            i <= errors.len(),
            texts.len() == i,
            forall|k: int| 0 <= k < i ==> (#[trigger] texts[k])@ == error_text(errors[k]@),
        decreases errors.len() - i,
    {
        texts.push(errors[i].to_string());
        i += 1;
    }
    assert(lines_view(&texts) =~= error_texts(errors_view(errors)));
    texts
}

impl Lux {
    /// A driver that has seen no source yet.
    pub fn new() -> (lux: Lux)
        ensures
            lux == (Lux { had_error: false, had_runtime_error: false, next_id: 0 }),
    {
        Lux { had_error: false, had_runtime_error: false, next_id: 0 }
    }

    /// Scans and parses `source`. The statements are returned where neither
    /// phase has a diagnostic; otherwise all diagnostics are, those of the
    /// scanner first.
    pub fn run(&mut self, source: &str) -> (r: Result<Vec<Stmt>, Vec<LuxError>>)
        ensures
            match r {
                Ok(statements) => {
                    &&& diagnostics_spec(source@, old(self).next_id).len() == 0
                    &&& front_spec(source@, old(self).next_id).result == Ok::<
                        Seq<StmtView>,
                        LuxErrorView,
                    >(stmts_view(&statements))
                },
                Err(errors) => {
                    &&& errors_view(&errors) == diagnostics_spec(source@, old(self).next_id)
                    &&& errors.len() > 0
                },
            },
            final(self).had_error == (r is Err),
            final(self).had_runtime_error == old(self).had_runtime_error,
            final(self).next_id == node_id(
                old(self).next_id,
                terminated(scan_source(source@).tokens).len() as int,
            ),
    {
        let mut scanner = Scanner::new(source.to_string());
        assert(tokens_view(&scanner.tokens) =~= Seq::empty());
        assert(errors_view(&scanner.errors) =~= Seq::empty());
        scanner.scan_tokens();
        let ghost scanned = scan_source(source@);
        assert(tokens_view(&scanner.tokens) == scanned.tokens);
        assert(errors_view(&scanner.errors) == scanned.errors);
        let Scanner { tokens, errors, .. } = scanner;
        let mut errors = errors;
        let mut parser = Parser::with_base(tokens, self.next_id);
        let ghost front = front_spec(source@, self.next_id);
        let count = parser.tokens.len();
        let parsed = parser.parse();
        proof {
            lemma_program_ends(
                terminated(scanned.tokens),
                old(self).next_id,
                0,
                Seq::empty(),
                Seq::empty(),
            );
        }
        assert(parser.errs() == front.errors);
        append_errors(&mut errors, &parser.errors);
        let offset = count as u64;
        self.next_id = if offset <= u64::MAX - self.next_id {
            self.next_id + offset
        } else {
            offset - (u64::MAX - self.next_id) - 1
        };
        assert(errors_view(&errors).len() == errors.len());
        if errors.len() == 0 {
            match parsed {
                Ok(statements) => {
                    self.had_error = false;
                    return Ok(statements);
                },
                Err(_) => {},
            }
        }
        self.had_error = true;
        Err(errors)
    }

    /// Resolves and runs `statements` on `interpreter`. A resolver error
    /// keeps the program from running.
    pub fn run_program(&mut self, interpreter: &mut Interpreter, statements: &Vec<Stmt>) -> (report:
        Report)
        requires
            old(interpreter).wf(),
        ensures
            final(interpreter).wf(),
            final(self).next_id == old(self).next_id,
            final(self).had_error == old(self).had_error,
            final(self).had_runtime_error == (report.code == EXIT_RUNTIME),
            program_report(
                *old(interpreter),
                *final(interpreter),
                stmts_view(statements),
                report,
            ),
    {
        self.had_runtime_error = false;
        let mut resolver = Resolver::new();
        match resolver.resolve(interpreter, statements) {
            Ok(()) => {},
            Err(error) => {
                let mut diagnostics: Vec<String> = Vec::new();
                diagnostics.push(error.to_string());
                assert(lines_view(&diagnostics) =~= seq![error_text(error@)]);
                return Report { code: EXIT_RESOLVER, diagnostics };
            },
        }
        assert(interpreter@ == (InterpreterView {
            locals: old(interpreter).locals@.union_prefer_right(
                fresh_resolution(stmts_view(statements)).writes,
            ),
            ..old(interpreter)@
        }));
        match interpreter.interpret(statements) {
            Ok(()) => {
                let diagnostics: Vec<String> = Vec::new();
                assert(lines_view(&diagnostics) =~= Seq::<Seq<char>>::empty());
                Report { code: EXIT_OK, diagnostics }
            },
            Err(error) => {
                self.had_runtime_error = true;
                let mut diagnostics: Vec<String> = Vec::new();
                diagnostics.push(error.to_string());
                assert(lines_view(&diagnostics) =~= seq![runtime_error_text(error@)]);
                Report { code: EXIT_RUNTIME, diagnostics }
            },
        }
    }

    /// Runs `source` through all phases on `interpreter`: scanning and
    /// parsing, resolving, evaluating. The first phase that fails gives the
    /// exit code and the diagnostics; the later phases do not run.
    pub fn run_source(&mut self, interpreter: &mut Interpreter, source: &str) -> (report: Report)
        requires
            old(interpreter).wf(),
        ensures
            final(interpreter).wf(),
            final(self).next_id == node_id(
                old(self).next_id,
                terminated(scan_source(source@).tokens).len() as int,
            ),
            final(self).had_error == (report.code == EXIT_SYNTAX),
            final(self).had_runtime_error == (report.code == EXIT_RUNTIME),
            source_report(
                *old(interpreter),
                *final(interpreter),
                source@,
                old(self).next_id,
                report,
            ),
    {
        match self.run(source) {
            Ok(statements) => self.run_program(interpreter, &statements),
            Err(errors) => {
                self.had_runtime_error = false;
                Report { code: EXIT_SYNTAX, diagnostics: texts_of(&errors) }
            },
        }
    }

    /// Takes one line of the prompt. An empty line ends the prompt: nothing
    /// runs. Any other line runs as a source on `interpreter`. Either way the
    /// mark of a scan or parse error is cleared for the next line.
    pub fn prompt_line(&mut self, interpreter: &mut Interpreter, line: &str) -> (r: Option<Report>)
        requires
            old(interpreter).wf(),
        ensures
            final(interpreter).wf(),
            (line@.len() == 0) == (r is None),
            !final(self).had_error,
            match r {
                None => {
                    &&& *final(interpreter) == *old(interpreter)
                    &&& final(self).next_id == old(self).next_id
                    &&& final(self).had_runtime_error == old(self).had_runtime_error
                },
                Some(report) => {
                    &&& final(self).next_id == node_id(
                        old(self).next_id,
                        terminated(scan_source(line@).tokens).len() as int,
                    )
                    &&& final(self).had_runtime_error == (report.code == EXIT_RUNTIME)
                    &&& source_report(
                        *old(interpreter),
                        *final(interpreter),
                        line@,
                        old(self).next_id,
                        report,
                    )
                },
            },
    {
        if line.is_empty() {
            self.had_error = false;
            None
        } else {
            let report = self.run_source(interpreter, line);
            self.had_error = false;
            Some(report)
        }
    }
}

} // verus!
