use lux::interpreter::Interpreter;
use lux::parser::Parser;
use lux::resolver::Resolver;
use lux::scanner::Scanner;
use lux::stmt::Stmt;
use std::collections::HashMap;

fn parse(source: &str) -> Vec<Stmt> {
    let mut scanner = Scanner::new(source.to_string());
    scanner.scan_tokens();
    Parser::new(scanner.tokens).parse().unwrap()
}

fn resolve(source: &str) -> Result<HashMap<u64, usize>, String> {
    let statements = parse(source);
    let mut interpreter = Interpreter::new();
    let mut resolver = Resolver::new();
    match resolver.resolve(&mut interpreter, &statements) {
        Ok(()) => Ok(interpreter.locals),
        Err(error) => Err(error.to_string()),
    }
}

fn distances(pairs: &[(u64, usize)]) -> HashMap<u64, usize> {
    pairs.iter().cloned().collect()
}

#[test]
fn globals_get_no_entry() {
    assert_eq!(resolve("var a = 1; print a; a = 2;"), Ok(distances(&[])));
    assert_eq!(resolve("print undefined;"), Ok(distances(&[])));
}

#[test]
fn local_in_the_same_scope_has_distance_zero() {
    assert_eq!(resolve("{ var a = 1; print a; }"), Ok(distances(&[(7, 0)])));
}

#[test]
fn distance_counts_the_scopes_between() {
    assert_eq!(
        resolve("{ var a = 1; { print a; { a = 2; } } }"),
        Ok(distances(&[(8, 1), (11, 2)]))
    );
}

#[test]
fn nearest_declaration_wins() {
    assert_eq!(
        resolve("{ var a = 1; { var a = 2; print a; } print a; }"),
        Ok(distances(&[(13, 0), (17, 0)]))
    );
}

#[test]
fn parameters_and_body_share_a_scope() {
    assert_eq!(
        resolve("fun f(a) { var b = a; return a + b; }"),
        Ok(distances(&[(9, 0), (12, 0), (14, 0)]))
    );
}

#[test]
fn a_function_sees_names_around_it() {
    assert_eq!(
        resolve("{ var a = 1; fun f() { print a; } }"),
        Ok(distances(&[(12, 1)]))
    );
    assert_eq!(resolve("{ fun f() { f(); } }"), Ok(distances(&[(6, 1)])));
}

#[test]
fn use_before_a_later_declaration_is_global() {
    assert_eq!(
        resolve("var a = 1; { fun show() { print a; } var a = 2; }"),
        Ok(distances(&[]))
    );
}

#[test]
fn reading_a_variable_in_its_own_initializer() {
    assert_eq!(
        resolve("{ var a = a; }"),
        Err("line 1 Error at 'a': Can't read local variable in its own initializer.".to_string())
    );
    assert_eq!(
        resolve("{ var a = 1 + a; }"),
        Err("line 1 Error at 'a': Can't read local variable in its own initializer.".to_string())
    );
    assert_eq!(
        resolve("{ var a = (a = 1); }"),
        Err("line 1 Error at 'a': Can't read local variable in its own initializer.".to_string())
    );
    assert_eq!(resolve("var a = a;"), Ok(distances(&[])));
    assert_eq!(resolve("{ var a = 1; { var a = a; } }"), Err(
        "line 1 Error at 'a': Can't read local variable in its own initializer.".to_string()
    ));
}

#[test]
fn declaring_a_name_twice_in_a_scope() {
    assert_eq!(
        resolve("{ var a = 1;\nvar a = 2; }"),
        Err("line 2 Error at 'a': Already a variable with this name in this scope.".to_string())
    );
    assert_eq!(
        resolve("fun f(a, a) { }"),
        Err("line 1 Error at 'a': Already a variable with this name in this scope.".to_string())
    );
    assert_eq!(
        resolve("fun f(a) { var a = 1; }"),
        Err("line 1 Error at 'a': Already a variable with this name in this scope.".to_string())
    );
    assert_eq!(resolve("var a = 1; var a = 2;"), Ok(distances(&[])));
    assert_eq!(resolve("{ var a = 1; { var a = 2; } }"), Ok(distances(&[])));
}

#[test]
fn return_outside_a_function() {
    assert_eq!(
        resolve("return 1;"),
        Err("line 1 Error at 'return': Can't return from top-level code.".to_string())
    );
    assert_eq!(
        resolve("{ if (true) return; }"),
        Err("line 1 Error at 'return': Can't return from top-level code.".to_string())
    );
    assert_eq!(resolve("fun f() { if (true) return; }"), Ok(distances(&[])));
    assert_eq!(
        resolve("fun f() { return; }\nreturn;"),
        Err("line 2 Error at 'return': Can't return from top-level code.".to_string())
    );
}

#[test]
fn every_kind_of_expression_is_walked() {
    assert_eq!(
        resolve("{ var a = 1; print -a + (a * a) < a or a and f(a, a); }"),
        Ok(distances(&[(8, 0), (11, 0), (13, 0), (16, 0), (18, 0), (22, 0), (24, 0)]))
    );
}

#[test]
fn every_kind_of_statement_is_walked() {
    assert_eq!(
        resolve("{ var a = 1; if (a) a; else a; while (a) a; for (;a;) a; }"),
        Ok(distances(&[(8, 0), (10, 0), (13, 0), (17, 0), (19, 0), (24, 0), (27, 0)]))
    );
}

#[test]
fn resolving_twice_changes_nothing() {
    let statements = parse("{ var a = 1; { print a; fun f(b) { return a + b; } } }");
    let mut interpreter = Interpreter::new();
    Resolver::new().resolve(&mut interpreter, &statements).unwrap();
    let first = interpreter.locals.clone();
    Resolver::new().resolve(&mut interpreter, &statements).unwrap();
    assert_eq!(interpreter.locals, first);
    assert_eq!(first, distances(&[(8, 1), (17, 2), (19, 0)]));
}

#[test]
fn earlier_entries_are_kept() {
    let statements = parse("{ var a = 1; print a; }");
    let mut interpreter = Interpreter::new();
    interpreter.resolve(1000, 3);
    interpreter.resolve(7, 9);
    Resolver::new().resolve(&mut interpreter, &statements).unwrap();
    assert_eq!(interpreter.locals, distances(&[(1000, 3), (7, 0)]));
}

#[test]
fn an_error_stops_the_walk() {
    let statements = parse("{ var a = 1; print a; var a = 2; print a; }");
    let mut interpreter = Interpreter::new();
    let mut resolver = Resolver::new();
    assert!(resolver.resolve(&mut interpreter, &statements).is_err());
    assert_eq!(interpreter.locals, distances(&[(7, 0)]));
}
