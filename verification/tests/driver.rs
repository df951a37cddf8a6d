use lux::error::LuxError;
use lux::interpreter::Interpreter;
use lux::literal::{Float, Literal};
use lux::lux::{Lux, EXIT_OK, EXIT_RESOLVER, EXIT_RUNTIME, EXIT_SYNTAX};
use lux::runtime_error::RuntimeError;
use lux::token::Token;
use lux::token_type::Types;

#[test]
fn new_driver_has_seen_no_error() {
    let lux = Lux::new();
    assert!(!lux.had_error);
    assert!(!lux.had_runtime_error);
    assert_eq!(lux.next_id, 0);
}

#[test]
fn run_gives_the_statements() {
    let mut lux = Lux::new();
    let statements = lux.run("var a = 1; print a;").unwrap();
    assert_eq!(statements.len(), 2);
    assert!(!lux.had_error);
    assert_eq!(lux.next_id, 9);
}

#[test]
fn run_gives_scanner_and_parser_diagnostics() {
    let mut lux = Lux::new();
    let errors = lux.run("print @ 1 print 2;\nvar = 3;").unwrap_err();
    let texts: Vec<String> = errors.iter().map(|error| error.to_string()).collect();
    assert_eq!(
        texts,
        vec![
            "line 1 Error : Unexpected character".to_string(),
            "line 1 Error at 'print': Expect ';' after value".to_string(),
            "line 2 Error at '=': Expect a variable name.".to_string(),
        ]
    );
    assert!(lux.had_error);
    let errors = lux.run("\"open").unwrap_err();
    assert_eq!(errors.len(), 1);
    assert_eq!(errors[0].message, "Unterminated string");
    assert!(lux.run("print 1;").is_ok());
    assert!(!lux.had_error);
}

#[test]
fn successful_run_has_code_zero() {
    let mut lux = Lux::new();
    let mut interpreter = Interpreter::new();
    let report = lux.run_source(&mut interpreter, "var a = 2; print a * a;");
    assert_eq!(report.code, EXIT_OK);
    assert_eq!(report.code, 0);
    assert!(report.diagnostics.is_empty());
    assert_eq!(interpreter.take_output(), vec!["4".to_string()]);
    assert!(!lux.had_error);
    assert!(!lux.had_runtime_error);
}

#[test]
fn syntax_error_has_code_65() {
    let mut lux = Lux::new();
    let mut interpreter = Interpreter::new();
    let report = lux.run_source(&mut interpreter, "print 1; print ;");
    assert_eq!(report.code, EXIT_SYNTAX);
    assert_eq!(report.code, 65);
    assert_eq!(report.diagnostics, vec!["line 1 Error at ';': Expect expression.".to_string()]);
    assert!(interpreter.output.is_empty());
    assert!(lux.had_error);
    assert!(!lux.had_runtime_error);
    let report = lux.run_source(&mut interpreter, "print 1; #");
    assert_eq!(report.code, 65);
    assert_eq!(report.diagnostics, vec!["line 1 Error : Unexpected character".to_string()]);
}

#[test]
fn resolver_error_has_code_75() {
    let mut lux = Lux::new();
    let mut interpreter = Interpreter::new();
    let report = lux.run_source(&mut interpreter, "print 1; { var a = a; }");
    assert_eq!(report.code, EXIT_RESOLVER);
    assert_eq!(report.code, 75);
    assert_eq!(
        report.diagnostics,
        vec!["line 1 Error at 'a': Can't read local variable in its own initializer.".to_string()]
    );
    assert!(interpreter.output.is_empty());
    let report = lux.run_source(&mut interpreter, "return;");
    assert_eq!(report.code, 75);
    let report = lux.run_source(&mut interpreter, "{ var a; var a; }");
    assert_eq!(report.code, 75);
}

#[test]
fn runtime_error_has_code_70() {
    let mut lux = Lux::new();
    let mut interpreter = Interpreter::new();
    let report = lux.run_source(&mut interpreter, "print 1;\nprint \"a\" - 1;");
    assert_eq!(report.code, EXIT_RUNTIME);
    assert_eq!(report.code, 70);
    assert_eq!(
        report.diagnostics,
        vec![
            "Line: 2, Lexeme: -, Literal: nil, Type: MINUS Operands must be numbers. \n [line 2]"
                .to_string()
        ]
    );
    assert_eq!(interpreter.output, vec!["1".to_string()]);
    assert!(lux.had_runtime_error);
    assert!(!lux.had_error);
    let report = lux.run_source(&mut interpreter, "print 2;");
    assert_eq!(report.code, 0);
    assert!(!lux.had_runtime_error);
}

#[test]
fn one_interpreter_keeps_globals_and_closures_between_sources() {
    let mut lux = Lux::new();
    let mut interpreter = Interpreter::new();
    assert_eq!(lux.run_source(&mut interpreter, "var total = 0;").code, 0);
    assert_eq!(
        lux.run_source(&mut interpreter, "fun add(n) { var twice = n + n; total = total + twice; }").code,
        0
    );
    assert_eq!(lux.run_source(&mut interpreter, "{ var n = 2; add(n); add(n + 1); }").code, 0);
    assert_eq!(lux.run_source(&mut interpreter, "print total;").code, 0);
    assert_eq!(interpreter.take_output(), vec!["10".to_string()]);
}

#[test]
fn nodes_of_later_sources_get_later_numbers() {
    let mut lux = Lux::new();
    let first = lux.run("a;").unwrap();
    assert_eq!(lux.next_id, 3);
    let second = lux.run("a;").unwrap();
    assert_eq!(lux.next_id, 6);
    let id_of = |statements: &Vec<lux::stmt::Stmt>| match &statements[0] {
        lux::stmt::Stmt::Expression { expression } => match &**expression {
            lux::expr::Expr::Variable { id, .. } => *id,
            other => panic!("{:?}", other),
        },
        other => panic!("{:?}", other),
    };
    assert_eq!(id_of(&first), 0);
    assert_eq!(id_of(&second), 3);
}

#[test]
fn diagnostic_text() {
    let eof = Token::new(Types::EOF, String::new(), Literal::Nil, 12);
    assert_eq!(LuxError::new(&eof, "Expect expression.").to_string(), "line 12 Error at end: Expect expression.");
    let plus = Token::new(Types::PLUS, "+".to_string(), Literal::Nil, 3);
    let error = LuxError::new(&plus, "Oops");
    assert_eq!(error.location, "at '+'");
    assert_eq!(error.line, 3);
    assert_eq!(error.message, "Oops");
    assert_eq!(error.to_string(), "line 3 Error at '+': Oops");
    let report = LuxError::report(1000, "somewhere", "went wrong");
    assert_eq!(report.to_string(), "line 1000 Error somewhere: went wrong");
    assert_eq!(report.clone().to_string(), report.to_string());
}

#[test]
fn runtime_error_text() {
    let token = Token::new(
        Types::NUMBER,
        "1.5".to_string(),
        Literal::Number(Float(1.5f64.to_bits())),
        7,
    );
    assert_eq!(token.to_string(), "Line: 7, Lexeme: 1.5, Literal: 1.5, Type: NUMBER");
    let error = RuntimeError::new(token.clone(), "Bad number.".to_string());
    assert_eq!(
        error.to_string(),
        "Line: 7, Lexeme: 1.5, Literal: 1.5, Type: NUMBER Bad number. \n [line 7]"
    );
    let copy = token.clone();
    assert_eq!(copy.lexeme, "1.5");
    assert_eq!(copy.line, 7);
    assert_eq!(copy.type_t, Types::NUMBER);
    assert!(copy.literal.equals(&token.literal));
}

#[test]
fn kind_names() {
    assert_eq!(Types::LEFT_PAREN.name(), "LEFT_PAREN");
    assert_eq!(Types::BANG_EQUAL.name(), "BANG_EQUAL");
    assert_eq!(Types::IDENTIFIER.name(), "IDENTIFIER");
    assert_eq!(Types::WHILE.name(), "WHILE");
    assert_eq!(Types::EOF.name(), "EOF");
    assert_eq!(format!("{:?}", Types::GREATER_EQUAL), Types::GREATER_EQUAL.name());
}

#[test]
fn an_empty_line_ends_the_prompt() {
    let mut lux = Lux::new();
    let mut interpreter = Interpreter::new();
    lux.had_error = true;
    assert!(lux.prompt_line(&mut interpreter, "").is_none());
    assert!(!lux.had_error);
    assert_eq!(lux.next_id, 0);
    assert!(interpreter.output.is_empty());
}

#[test]
fn a_line_of_the_prompt_runs_and_clears_the_error_mark() {
    let mut lux = Lux::new();
    let mut interpreter = Interpreter::new();
    let report = lux.prompt_line(&mut interpreter, "var a = 3;").unwrap();
    assert_eq!(report.code, 0);
    let report = lux.prompt_line(&mut interpreter, "print a +;").unwrap();
    assert_eq!(report.code, 65);
    assert_eq!(report.diagnostics, vec!["line 1 Error at ';': Expect expression.".to_string()]);
    assert!(!lux.had_error);
    let report = lux.prompt_line(&mut interpreter, "print a - nil;").unwrap();
    assert_eq!(report.code, 70);
    assert!(lux.had_runtime_error);
    let report = lux.prompt_line(&mut interpreter, " ").unwrap();
    assert_eq!(report.code, 0);
    let report = lux.prompt_line(&mut interpreter, "print a * a;").unwrap();
    assert_eq!(report.code, 0);
    assert!(!lux.had_runtime_error);
    assert_eq!(interpreter.take_output(), vec!["9".to_string()]);
}
