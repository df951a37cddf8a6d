use lux::expr::Expr;
use lux::interpreter::Interpreter;
use lux::literal::{Float, Literal};
use lux::parser::Parser;
use lux::resolver::Resolver;
use lux::scanner::Scanner;
use lux::stmt::Stmt;
use lux::token::Token;
use lux::token_type::Types;

fn parse(source: &str) -> Vec<Stmt> {
    let mut scanner = Scanner::new(source.to_string());
    scanner.scan_tokens();
    assert!(scanner.errors.is_empty());
    Parser::new(scanner.tokens).parse().unwrap()
}

/// Runs a program and gives the lines it printed, or its runtime error.
fn run(source: &str) -> Result<Vec<String>, String> {
    let statements = parse(source);
    let mut interpreter = Interpreter::new();
    Resolver::new().resolve(&mut interpreter, &statements).unwrap();
    match interpreter.interpret(&statements) {
        Ok(()) => Ok(interpreter.output),
        Err(error) => Err(error.message),
    }
}

fn lines(expected: &[&str]) -> Result<Vec<String>, String> {
    Ok(expected.iter().map(|line| line.to_string()).collect())
}

fn number(value: f64) -> Literal {
    Literal::Number(Float(value.to_bits()))
}

fn token(kind: Types, lexeme: &str) -> Token {
    Token::new(kind, lexeme.to_string(), Literal::Nil, 1)
}

fn literal(value: Literal) -> Box<Expr> {
    Box::new(Expr::Literal { value })
}

#[test]
fn arithmetic() {
    assert_eq!(run("print 1 + 2;"), lines(&["3"]));
    assert_eq!(run("print 7 - 10;"), lines(&["-3"]));
    assert_eq!(run("print 6 * 7;"), lines(&["42"]));
    assert_eq!(run("print 1 / 4;"), lines(&["0.25"]));
    assert_eq!(run("print (1 + 2) * (3 + 4) - 5;"), lines(&["16"]));
    assert_eq!(run("print -(2 + 3);"), lines(&["-5"]));
    assert_eq!(run("print --2;"), lines(&["2"]));
}

#[test]
fn binary_operator_on_values() {
    let mut interpreter = Interpreter::new();
    let expr = Expr::Binary {
        left: literal(number(0.1)),
        right: literal(number(0.2)),
        operator: token(Types::PLUS, "+"),
    };
    let value = interpreter.evaluate(&expr, 10).unwrap();
    assert!(value.equals(&number(0.1 + 0.2)));
    let expr = Expr::Binary {
        left: literal(number(1.0)),
        right: literal(number(3.0)),
        operator: token(Types::SLASH, "/"),
    };
    assert!(interpreter.evaluate(&expr, 10).unwrap().equals(&number(1.0 / 3.0)));
}

#[test]
fn division_by_zero_is_no_error() {
    assert_eq!(run("print 1 / 0;"), lines(&["+Inf"]));
    assert_eq!(run("print -1 / 0;"), lines(&["-Inf"]));
    assert_eq!(run("print 0 / 0;"), lines(&["NaN"]));
}

#[test]
fn comparisons() {
    assert_eq!(run("print 1 < 2; print 2 < 1; print 2 < 2;"), lines(&["true", "false", "false"]));
    assert_eq!(run("print 1 <= 2; print 2 <= 1; print 2 <= 2;"), lines(&["true", "false", "true"]));
    assert_eq!(run("print 1 > 2; print 2 > 1; print 2 > 2;"), lines(&["false", "true", "false"]));
    assert_eq!(run("print 1 >= 2; print 2 >= 1; print 2 >= 2;"), lines(&["false", "true", "true"]));
    assert_eq!(run("print -1 < 1; print -2 < -1; print -1 < -2;"), lines(&["true", "true", "false"]));
    assert_eq!(run("var n = 0 / 0; print n < 1; print n >= 1; print n <= n;"), lines(&["false", "false", "false"]));
}

#[test]
fn equality() {
    assert_eq!(run("print 1 == 1; print 1 == 2; print 1 != 2; print 1 != 1;"), lines(&["true", "false", "true", "false"]));
    assert_eq!(run("print \"a\" == \"a\"; print \"a\" == \"b\"; print \"a\" != \"b\";"), lines(&["true", "false", "true"]));
    assert_eq!(run("print nil == nil; print true == true; print true == false;"), lines(&["true", "true", "false"]));
    assert_eq!(run("print 1 == \"1\"; print nil == false; print 0 == false; print 1 != \"1\";"), lines(&["false", "false", "false", "true"]));
    assert_eq!(run("var n = 0 / 0; print n == n; print 0 == -0;"), lines(&["true", "false"]));
}

#[test]
fn functions_are_equal_to_themselves_only() {
    assert_eq!(
        run("fun f() {} fun g() {} var h = f; print f == f; print f == h; print f == g; print f != g; print clock == clock; print clock == f;"),
        lines(&["true", "true", "false", "true", "true", "false"])
    );
}

#[test]
fn equality_is_the_negation_of_inequality() {
    let values = ["1", "2", "\"a\"", "\"b\"", "nil", "true", "false", "clock", "0/0", "-0", "0"];
    for a in values {
        for b in values {
            let source = format!("print ({a} == {b}) == !({a} != {b});");
            assert_eq!(run(&source), lines(&["true"]), "{}", source);
        }
    }
}

#[test]
fn truthiness() {
    assert_eq!(run("print !true; print !false; print !nil;"), lines(&["false", "true", "true"]));
    assert_eq!(run("print !0; print !\"\"; print !clock; print !1;"), lines(&["false", "false", "false", "false"]));
    assert_eq!(run("if (0) print \"zero\"; if (\"\") print \"empty\"; if (nil) print \"nil\"; else print \"not nil\";"), lines(&["zero", "empty", "not nil"]));
}

#[test]
fn double_negation_gives_the_truthiness() {
    assert_eq!(
        run("print !!true; print !!false; print !!nil; print !!0; print !!\"\"; print !!\"a\"; print !!clock;"),
        lines(&["true", "false", "false", "true", "true", "true", "true"])
    );
    for value in [Literal::Nil, Literal::Bool(false), Literal::Bool(true), number(0.0), Literal::String(String::new())] {
        let truthy = value.is_truthy();
        let expr = Expr::Unary {
            operator: token(Types::BANG, "!"),
            right: Box::new(Expr::Unary { operator: token(Types::BANG, "!"), right: literal(value) }),
        };
        let result = Interpreter::new().evaluate(&expr, 10).unwrap();
        assert!(result.equals(&Literal::Bool(truthy)));
    }
}

#[test]
fn strings() {
    assert_eq!(run("print \"foo\" + \"bar\";"), lines(&["foobar"]));
    assert_eq!(run("print \"\" + \"\";"), lines(&[""]));
    assert_eq!(run("print \"a\nb\";"), lines(&["a\nb"]));
}

#[test]
fn display_forms() {
    assert_eq!(run("print nil; print true; print false; print 12; print 1.5; print \"s\";"), lines(&["nil", "true", "false", "12", "1.5", "s"]));
    assert_eq!(run("print clock;"), lines(&["<native fn>"]));
    assert_eq!(run("fun named() {} print named;"), lines(&["<fn named>"]));
}

#[test]
fn operand_type_errors() {
    assert_eq!(run("print \"a\" - 1;"), Err("Operands must be numbers.".to_string()));
    assert_eq!(run("print 1 * nil;"), Err("Operands must be numbers.".to_string()));
    assert_eq!(run("print true / 2;"), Err("Operands must be numbers.".to_string()));
    assert_eq!(run("print 1 < \"2\";"), Err("Operands must be numbers.".to_string()));
    assert_eq!(run("print \"a\" <= \"b\";"), Err("Operands must be numbers.".to_string()));
    assert_eq!(run("print nil > 1;"), Err("Operands must be numbers.".to_string()));
    assert_eq!(run("print 1 >= true;"), Err("Operands must be numbers.".to_string()));
    assert_eq!(run("print 1 + \"a\";"), Err("Operands must be two numbers or two strings.".to_string()));
    assert_eq!(run("print \"a\" + 1;"), Err("Operands must be two numbers or two strings.".to_string()));
    assert_eq!(run("print nil + nil;"), Err("Operands must be two numbers or two strings.".to_string()));
    assert_eq!(run("print -\"a\";"), Err("Operand must be a number.".to_string()));
    assert_eq!(run("print -nil;"), Err("Operand must be a number.".to_string()));
}

#[test]
fn operators_the_evaluator_does_not_know() {
    let mut interpreter = Interpreter::new();
    let expr = Expr::Binary {
        left: literal(number(1.0)),
        right: literal(number(2.0)),
        operator: token(Types::COMMA, ","),
    };
    let error = interpreter.evaluate(&expr, 10).unwrap_err();
    assert_eq!(error.message, "Operator type not implemented!");
    assert_eq!(error.token.type_t, Types::COMMA);
    let expr = Expr::Unary { operator: token(Types::PLUS, "+"), right: literal(number(1.0)) };
    assert_eq!(interpreter.evaluate(&expr, 10).unwrap_err().message, "not implemented");
}

#[test]
fn error_stops_the_program() {
    let statements = parse("print 1; print 2 - nil; print 3;");
    let mut interpreter = Interpreter::new();
    let error = interpreter.interpret(&statements).unwrap_err();
    assert_eq!(error.message, "Operands must be numbers.");
    assert_eq!(error.token.type_t, Types::MINUS);
    assert_eq!(interpreter.output, vec!["1".to_string()]);
}

#[test]
fn left_operand_is_evaluated_first() {
    assert_eq!(
        run("fun a() { print \"a\"; return 1; } fun b() { print \"b\"; return 2; } print a() + b();"),
        lines(&["a", "b", "3"])
    );
    assert_eq!(
        run("fun a() { print \"a\"; return 1; } fun f(x, y) {} f(a(), -nil);"),
        Err("Operand must be a number.".to_string())
    );
}

#[test]
fn logical_operators_short_circuit() {
    assert_eq!(run("print \"hi\" or 2; print nil or \"yes\"; print false or nil;"), lines(&["hi", "yes", "nil"]));
    assert_eq!(run("print 1 and 2; print nil and 2; print false and 2; print 1 and nil;"), lines(&["2", "nil", "false", "nil"]));
    assert_eq!(
        run("fun loud() { print \"called\"; return true; } print true or loud(); print false and loud(); print false or loud();"),
        lines(&["true", "false", "called", "true"])
    );
}

#[test]
fn global_variables() {
    assert_eq!(run("var a = 1; var b; print a; print b; a = a + 1; print a;"), lines(&["1", "nil", "2"]));
    assert_eq!(run("var a = 1; var a = 2; print a;"), lines(&["2"]));
    assert_eq!(run("var a; print a = 3; print a;"), lines(&["3", "3"]));
}

#[test]
fn undefined_variables() {
    assert_eq!(run("print missing;"), Err("Undefined variable 'missing'.".to_string()));
    assert_eq!(run("missing = 1;"), Err("Undefined variable 'missing'.".to_string()));
    assert_eq!(run("{ print missing; }"), Err("Undefined variable 'missing'.".to_string()));
    assert_eq!(run("fun f() { missing = 1; } f();"), Err("Undefined variable 'missing'.".to_string()));
}

#[test]
fn blocks_shadow_and_restore() {
    assert_eq!(
        run("var a = \"outer\"; { var a = \"inner\"; print a; { var a = \"innermost\"; print a; } print a; } print a;"),
        lines(&["inner", "innermost", "inner", "outer"])
    );
    assert_eq!(run("var a = 1; { a = 2; var b = a; print b; } print a;"), lines(&["2", "2"]));
    assert_eq!(run("{ var a = 1; { a = a + 1; } print a; }"), lines(&["2"]));
}

#[test]
fn environment_is_restored_after_an_error_in_a_block() {
    let statements = parse("{ var a = 1; { print -nil; } }");
    let mut interpreter = Interpreter::new();
    Resolver::new().resolve(&mut interpreter, &statements).unwrap();
    assert!(interpreter.interpret(&statements).is_err());
    assert_eq!(interpreter.environment, interpreter.globals);
    assert_eq!(interpreter.environment, 0);
}

#[test]
fn if_and_else() {
    assert_eq!(run("if (1 < 2) print \"yes\"; else print \"no\";"), lines(&["yes"]));
    assert_eq!(run("if (1 > 2) print \"yes\"; else print \"no\";"), lines(&["no"]));
    assert_eq!(run("if (false) print \"yes\"; print \"after\";"), lines(&["after"]));
}

#[test]
fn while_loops() {
    assert_eq!(run("var i = 0; while (i < 3) { print i; i = i + 1; }"), lines(&["0", "1", "2"]));
    assert_eq!(run("while (false) print 1; print 2;"), lines(&["2"]));
    assert_eq!(run("var i = 0; var sum = 0; while (i < 1000) { i = i + 1; sum = sum + i; } print sum;"), lines(&["500500"]));
}

#[test]
fn for_loops() {
    assert_eq!(run("for (var i = 0; i < 3; i = i + 1) print i;"), lines(&["0", "1", "2"]));
    assert_eq!(run("var i = 10; for (; i > 8; i = i - 1) print i;"), lines(&["10", "9"]));
    assert_eq!(run("for (var i = 0; i < 2;) { print i; i = i + 1; }"), lines(&["0", "1"]));
    assert_eq!(run("fun f() { for (;;) return \"out\"; } print f();"), lines(&["out"]));
}

#[test]
fn for_loop_runs_as_its_desugared_form() {
    let sugared = run("var t = 0; for (var i = 1; i <= 10; i = i + 1) { t = t + i * i; print t; } print t;");
    let plain = run("var t = 0; { var i = 1; while (i <= 10) { { t = t + i * i; print t; } i = i + 1; } } print t;");
    assert_eq!(sugared, plain);
    assert_eq!(sugared.unwrap().last().unwrap(), "385");
}

#[test]
fn functions_and_returns() {
    assert_eq!(run("fun add(a, b) { return a + b; } print add(1, 2);"), lines(&["3"]));
    assert_eq!(run("fun nothing() {} print nothing();"), lines(&["nil"]));
    assert_eq!(run("fun bare() { return; } print bare();"), lines(&["nil"]));
    assert_eq!(run("fun early() { print 1; return 2; print 3; } print early();"), lines(&["1", "2"]));
    assert_eq!(
        run("fun find() { var i = 0; while (true) { if (i == 3) { return i; } i = i + 1; } } print find();"),
        lines(&["3"])
    );
    assert_eq!(run("fun f() { { { return \"deep\"; } } print \"no\"; } print f(); print \"after\";"), lines(&["deep", "after"]));
}

#[test]
fn recursion() {
    assert_eq!(
        run("fun fib(n) { if (n < 2) return n; return fib(n - 1) + fib(n - 2); } print fib(15);"),
        lines(&["610"])
    );
    assert_eq!(
        run("fun fact(n) { if (n <= 1) return 1; return n * fact(n - 1); } print fact(10);"),
        lines(&["3628800"])
    );
}

#[test]
fn parameters_shadow_globals() {
    assert_eq!(run("var a = \"global\"; fun f(a) { print a; a = \"changed\"; print a; } f(\"argument\"); print a;"), lines(&["argument", "changed", "global"]));
}

#[test]
fn closures_capture_their_environment() {
    assert_eq!(
        run("fun makeCounter() { var i = 0; fun count() { i = i + 1; print i; } return count; } var c = makeCounter(); c(); c(); c();"),
        lines(&["1", "2", "3"])
    );
    assert_eq!(
        run("fun makeCounter() { var i = 0; fun count() { i = i + 1; return i; } return count; } var a = makeCounter(); var b = makeCounter(); a(); a(); print a(); print b();"),
        lines(&["3", "1"])
    );
    assert_eq!(
        run("fun outer(x) { fun middle(y) { fun inner(z) { return x + y + z; } return inner; } return middle; } print outer(1)(2)(3);"),
        lines(&["6"])
    );
}

#[test]
fn closure_is_called_from_another_environment() {
    assert_eq!(
        run("var get; var set; { var hidden = 1; fun g() { return hidden; } fun s(v) { hidden = v; } get = g; set = s; } { var hidden = \"other\"; set(5); print get(); print hidden; }"),
        lines(&["5", "other"])
    );
}

#[test]
fn shadowing_after_capture() {
    assert_eq!(
        run("var a = \"global\"; { fun showA() { print a; } showA(); var a = \"local\"; showA(); }"),
        lines(&["global", "global"])
    );
}

#[test]
fn only_callables_can_be_called() {
    assert_eq!(run("\"text\"();"), Err("Can only call functions and classes.".to_string()));
    assert_eq!(run("var a = 1; a();"), Err("Can only call functions and classes.".to_string()));
    assert_eq!(run("nil();"), Err("Can only call functions and classes.".to_string()));
    assert_eq!(run("true(1);"), Err("Can only call functions and classes.".to_string()));
}

#[test]
fn arity_is_checked() {
    assert_eq!(run("fun f(a, b) {} f(1);"), Err("Expected 2 arguments but got 1.".to_string()));
    assert_eq!(run("fun f() {} f(1, 2, 3);"), Err("Expected 0 arguments but got 3.".to_string()));
    assert_eq!(run("clock(1);"), Err("Expected 0 arguments but got 1.".to_string()));
    let names: Vec<String> = (0..12).map(|i| format!("p{}", i)).collect();
    let source = format!("fun f({}) {{}} f();", names.join(", "));
    assert_eq!(run(&source), Err("Expected 12 arguments but got 0.".to_string()));
}

#[test]
fn call_error_is_reported_at_the_closing_parenthesis() {
    let statements = parse("fun f(a) {}\nf(\n);");
    let mut interpreter = Interpreter::new();
    let error = interpreter.interpret(&statements).unwrap_err();
    assert_eq!(error.token.type_t, Types::RIGHT_PAREN);
    assert_eq!(error.token.line, 3);
}

#[test]
fn clock_gives_the_seconds_since_the_epoch() {
    let before = std::time::SystemTime::now()
        .duration_since(std::time::UNIX_EPOCH)
        .unwrap()
        .as_secs();
    let statements = parse("var t = clock();");
    let mut interpreter = Interpreter::new();
    interpreter.interpret(&statements).unwrap();
    let after = std::time::SystemTime::now()
        .duration_since(std::time::UNIX_EPOCH)
        .unwrap()
        .as_secs();
    let name = Token::new(Types::IDENTIFIER, "t".to_string(), Literal::Nil, 1);
    let value = interpreter.evaluate(&Expr::Variable { name, id: 9999 }, 5).unwrap();
    match value {
        Literal::Number(bits) => {
            let seconds = f64::from_bits(bits.0);
            assert!(before as f64 <= seconds && seconds <= after as f64);
            assert_eq!(seconds.fract(), 0.0);
        }
        other => panic!("{:?}", other),
    }
    assert_eq!(run("print clock() - clock() <= 0; print clock() > 1700000000;"), lines(&["true", "true"]));
}

#[test]
fn budget_bounds_the_evaluation() {
    let statements = parse("fun f() { return f(); } f();");
    let mut interpreter = Interpreter::new();
    let error = interpreter.execute_block(&statements, 0, 200).unwrap_err();
    assert_eq!(error.message, "Evaluation budget exhausted.");
    assert_eq!(interpreter.environment, 0);
    let mut interpreter = Interpreter::new();
    let expr = Expr::Literal { value: Literal::Nil };
    assert_eq!(interpreter.evaluate(&expr, 0).unwrap_err().message, "Evaluation budget exhausted.");
    assert!(interpreter.evaluate(&expr, 1).unwrap().equals(&Literal::Nil));
    assert_eq!(interpreter.execute(&statements[0], 0).unwrap_err().message, "Evaluation budget exhausted.");
}

#[test]
fn budget_bounds_the_nesting_and_not_the_rounds_of_a_loop() {
    let statements = parse("var i = 0; while (i < 5000) i = i + 1; print i;");
    let mut interpreter = Interpreter::new();
    assert!(interpreter.execute_block(&statements, 0, 6).is_ok());
    assert_eq!(interpreter.output, vec!["5000".to_string()]);
    let mut interpreter = Interpreter::new();
    assert!(interpreter.execute(&statements[0], 2).is_ok());
    let error = interpreter.execute(&statements[1], 4).unwrap_err();
    assert_eq!(error.message, "Evaluation budget exhausted.");
    assert!(interpreter.execute(&statements[1], 5).is_ok());
}

#[test]
fn budget_is_enough_for_nested_expressions() {
    let mut interpreter = Interpreter::new();
    let expr = Expr::Binary {
        left: literal(number(1.0)),
        right: Box::new(Expr::Grouping { expression: literal(number(2.0)) }),
        operator: token(Types::PLUS, "+"),
    };
    assert!(interpreter.evaluate(&expr, 3).unwrap().equals(&number(3.0)));
    assert_eq!(interpreter.evaluate(&expr, 2).unwrap_err().message, "Evaluation budget exhausted.");
}

#[test]
fn return_at_top_level_ends_the_program() {
    let statements = parse("print 1; return 5; print 2;");
    let mut interpreter = Interpreter::new();
    assert!(interpreter.interpret(&statements).is_ok());
    assert_eq!(interpreter.output, vec!["1".to_string()]);
    let mut interpreter = Interpreter::new();
    let flow = interpreter.execute(&statements[1], 10).unwrap();
    assert!(flow.unwrap().equals(&number(5.0)));
    let flow = interpreter.execute(&statements[0], 10).unwrap();
    assert!(flow.is_none());
}

#[test]
fn globals_persist_between_programs() {
    let mut interpreter = Interpreter::new();
    let first = parse("var a = 1; fun inc() { a = a + 1; }");
    interpreter.interpret(&first).unwrap();
    let second = parse("inc(); inc(); print a;");
    interpreter.interpret(&second).unwrap();
    assert_eq!(interpreter.output, vec!["3".to_string()]);
    assert_eq!(interpreter.take_output(), vec!["3".to_string()]);
    assert!(interpreter.output.is_empty());
    assert!(interpreter.is_ready());
}

#[test]
fn default_interpreter_is_a_new_one() {
    let interpreter = Interpreter::default();
    assert_eq!(interpreter.environments.len(), 1);
    assert!(interpreter.is_ready());
    assert!(matches!(interpreter.environments[0].lookup(&"clock".to_string()), Some(Literal::Clock(_))));
}

#[test]
fn new_interpreter_holds_the_clock() {
    let interpreter = Interpreter::new();
    assert_eq!(interpreter.environments.len(), 1);
    assert_eq!(interpreter.environment, 0);
    assert_eq!(interpreter.globals, 0);
    assert!(interpreter.locals.is_empty());
    assert!(interpreter.output.is_empty());
    let name = "clock".to_string();
    match interpreter.environments[0].lookup(&name) {
        Some(Literal::Clock(clock)) => assert_eq!(clock.arity, 0),
        other => panic!("{:?}", other),
    }
    assert!(interpreter.environments[0].enclosing.is_none());
}

#[test]
fn function_call_on_values() {
    let statements = parse("fun second(a, b) { return b; }");
    let mut interpreter = Interpreter::new();
    Resolver::new().resolve(&mut interpreter, &statements).unwrap();
    interpreter.interpret(&statements).unwrap();
    let name = "second".to_string();
    let function = match interpreter.environments[0].lookup(&name) {
        Some(Literal::Function(function)) => function,
        other => panic!("{:?}", other),
    };
    assert_eq!(function.arity(), 2);
    assert_eq!(function.closure, 0);
    let paren = token(Types::RIGHT_PAREN, ")");
    let result = function
        .call(&mut interpreter, &paren, vec![number(1.0), Literal::String("two".to_string())], 100)
        .unwrap();
    assert!(result.equals(&Literal::String("two".to_string())));
    assert_eq!(interpreter.environment, 0);
    assert_eq!(interpreter.environments.len(), 1);
}

#[test]
fn environments_of_finished_blocks_are_released() {
    let statements = parse("var t = 0; fun add(n) { var twice = n + n; { t = t + twice; } } var i = 0; while (i < 100) { var j = i; { add(j); } i = i + 1; } print t;");
    let mut interpreter = Interpreter::new();
    Resolver::new().resolve(&mut interpreter, &statements).unwrap();
    interpreter.interpret(&statements).unwrap();
    assert_eq!(interpreter.output, vec!["9900".to_string()]);
    assert_eq!(interpreter.environments.len(), 1);
    assert_eq!(interpreter.functions, 1);
}

#[test]
fn a_function_value_keeps_its_environment() {
    let statements = parse("fun make(n) { fun get() { return n; } return get; } var a = make(1); { var unused = 0; } var b = make(2); print a() + b();");
    let mut interpreter = Interpreter::new();
    Resolver::new().resolve(&mut interpreter, &statements).unwrap();
    interpreter.interpret(&statements).unwrap();
    assert_eq!(interpreter.output, vec!["3".to_string()]);
    assert_eq!(interpreter.functions, 3);
    assert_eq!(interpreter.environments.len(), 3);
    assert_eq!(interpreter.environments[1].enclosing, Some(0));
    assert_eq!(interpreter.environments[2].enclosing, Some(0));
}

#[test]
fn a_failed_call_releases_its_environment() {
    let statements = parse("fun f(a) { { return -nil; } } f(1);");
    let mut interpreter = Interpreter::new();
    Resolver::new().resolve(&mut interpreter, &statements).unwrap();
    assert!(interpreter.interpret(&statements).is_err());
    assert_eq!(interpreter.environments.len(), 1);
    assert_eq!(interpreter.environment, 0);
}

#[test]
fn a_function_without_its_closure_cannot_be_called() {
    let declaration = std::rc::Rc::new(lux::function::Function {
        name: token(Types::IDENTIFIER, "lost"),
        param: Vec::new(),
        body: Vec::new(),
    });
    let function = lux::function::LuxFunction::with_id(declaration, 7, 1);
    let mut interpreter = Interpreter::new();
    let paren = token(Types::RIGHT_PAREN, ")");
    let error = function.call(&mut interpreter, &paren, Vec::new(), 10).unwrap_err();
    assert_eq!(error.message, "Unknown closure.");
    assert_eq!(error.token.type_t, Types::RIGHT_PAREN);
    assert_eq!(interpreter.environments.len(), 1);
}

#[test]
fn clock_call_draws_a_reading() {
    let mut interpreter = Interpreter::new();
    let value = lux::clock::Clock::with_id(3).call(&mut interpreter).unwrap();
    match value {
        Literal::Number(bits) => assert!(f64::from_bits(bits.0) > 1.7e9),
        other => panic!("{:?}", other),
    }
}
