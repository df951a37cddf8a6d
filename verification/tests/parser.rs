use lux::expr::Expr;
use lux::literal::Literal;
use lux::parser::Parser;
use lux::scanner::Scanner;
use lux::stmt::Stmt;
use lux::token::Token;
use lux::token_type::Types;

fn tokens_of(source: &str) -> Vec<Token> {
    let mut scanner = Scanner::new(source.to_string());
    scanner.scan_tokens();
    scanner.tokens
}

fn show_expr(expr: &Expr) -> String {
    match expr {
        Expr::Binary { left, right, operator } => {
            format!("({} {} {})", operator.lexeme, show_expr(left), show_expr(right))
        }
        Expr::Logical { left, right, operator } => {
            format!("[{} {} {}]", operator.lexeme, show_expr(left), show_expr(right))
        }
        Expr::Grouping { expression } => format!("(group {})", show_expr(expression)),
        Expr::Literal { value } => match value {
            Literal::String(text) => format!("{:?}", text),
            other => other.to_str(),
        },
        Expr::Unary { operator, right } => format!("({} {})", operator.lexeme, show_expr(right)),
        Expr::Variable { name, id } => format!("{}#{}", name.lexeme, id),
        Expr::Assign { name, value, id } => {
            format!("(= {}#{} {})", name.lexeme, id, show_expr(value))
        }
        Expr::Call { callee, arguments, .. } => {
            let mut text = format!("(call {}", show_expr(callee));
            for argument in arguments {
                text.push(' ');
                text.push_str(&show_expr(argument));
            }
            text.push(')');
            text
        }
        Expr::Nil => "<nil>".to_string(),
    }
}

fn show_stmt(stmt: &Stmt) -> String {
    match stmt {
        Stmt::Expression { expression } => format!("{};", show_expr(expression)),
        Stmt::Print { expression } => format!("print {};", show_expr(expression)),
        Stmt::Var { name, initializer } => {
            format!("var {} = {};", name.lexeme, show_expr(initializer))
        }
        Stmt::Block { statements } => {
            let inner: Vec<String> = statements.iter().map(show_stmt).collect();
            format!("{{ {} }}", inner.join(" "))
        }
        Stmt::If { condition, then_branch, else_branch } => match else_branch {
            Some(branch) => format!(
                "if {} {} else {}",
                show_expr(condition),
                show_stmt(then_branch),
                show_stmt(branch)
            ),
            None => format!("if {} {}", show_expr(condition), show_stmt(then_branch)),
        },
        Stmt::Function(function) => {
            let params: Vec<String> = function.param.iter().map(|p| p.lexeme.clone()).collect();
            let body: Vec<String> = function.body.iter().map(show_stmt).collect();
            format!("fun {}({}) {{ {} }}", function.name.lexeme, params.join(","), body.join(" "))
        }
        Stmt::While { condition, body } => {
            format!("while {} {}", show_expr(condition), show_stmt(body))
        }
        Stmt::Return { value, .. } => format!("return {};", show_expr(value)),
    }
}

fn parse(source: &str) -> Result<Vec<String>, String> {
    let mut parser = Parser::new(tokens_of(source));
    match parser.parse() {
        Ok(statements) => Ok(statements.iter().map(show_stmt).collect()),
        Err(error) => Err(error.to_string()),
    }
}

fn parse_one(source: &str) -> String {
    let statements = parse(source).unwrap();
    assert_eq!(statements.len(), 1, "{:?}", statements);
    statements[0].clone()
}

fn messages(source: &str) -> Vec<String> {
    let mut parser = Parser::new(tokens_of(source));
    let _ = parser.parse();
    parser.errors.iter().map(|error| error.to_string()).collect()
}

#[test]
fn empty_program() {
    assert_eq!(parse(""), Ok(vec![]));
}

#[test]
fn factor_binds_tighter_than_term() {
    assert_eq!(parse_one("1 + 2 * 3;"), "(+ 1 (* 2 3));");
    assert_eq!(parse_one("1 * 2 + 3;"), "(+ (* 1 2) 3);");
    assert_eq!(parse_one("6 / 3 - 1;"), "(- (/ 6 3) 1);");
}

#[test]
fn binary_operators_associate_to_the_left() {
    assert_eq!(parse_one("1 - 2 - 3;"), "(- (- 1 2) 3);");
    assert_eq!(parse_one("8 / 4 / 2;"), "(/ (/ 8 4) 2);");
    assert_eq!(parse_one("1 < 2 == 3 >= 4;"), "(== (< 1 2) (>= 3 4));");
    assert_eq!(parse_one("1 != 2 != 3;"), "(!= (!= 1 2) 3);");
}

#[test]
fn logical_operators_make_logical_nodes() {
    assert_eq!(parse_one("a or b and c;"), "[or a#0 [and b#2 c#4]];");
    assert_eq!(parse_one("a and b or c;"), "[or [and a#0 b#2] c#4];");
    assert_eq!(parse_one("a or b or c;"), "[or [or a#0 b#2] c#4];");
}

#[test]
fn unary_operators_nest() {
    assert_eq!(parse_one("!!true;"), "(! (! true));");
    assert_eq!(parse_one("-1 - -2;"), "(- (- 1) (- 2));");
    assert_eq!(parse_one("!f();"), "(! (call f#1));");
}

#[test]
fn primary_expressions() {
    assert_eq!(parse_one("nil;"), "nil;");
    assert_eq!(parse_one("true;"), "true;");
    assert_eq!(parse_one("false;"), "false;");
    assert_eq!(parse_one("12.5;"), "12.5;");
    assert_eq!(parse_one("\"text\";"), "\"text\";");
    assert_eq!(parse_one("(1 + 2) * 3;"), "(* (group (+ 1 2)) 3);");
    assert_eq!(parse_one("name;"), "name#0;");
}

#[test]
fn variable_nodes_are_numbered_by_their_token() {
    assert_eq!(parse_one("a + b * a;"), "(+ a#0 (* b#2 a#4));");
    let mut parser = Parser::with_base(tokens_of("a + b;"), 100);
    let statements = parser.parse().unwrap();
    assert_eq!(show_stmt(&statements[0]), "(+ a#100 b#102);");
    let mut parser = Parser::with_base(tokens_of("a + b;"), u64::MAX);
    let statements = parser.parse().unwrap();
    assert_eq!(show_stmt(&statements[0]), format!("(+ a#{} b#1);", u64::MAX));
}

#[test]
fn assignment_is_right_associative() {
    assert_eq!(parse_one("a = b = 1;"), "(= a#0 (= b#2 1));");
    assert_eq!(parse_one("a = 1 + 2;"), "(= a#0 (+ 1 2));");
}

#[test]
fn invalid_assignment_target() {
    assert_eq!(
        parse("1 = 2;"),
        Err("line 1 Error at '=': Invalid assignment target.".to_string())
    );
    assert_eq!(
        parse("a + b = 2;"),
        Err("line 1 Error at '=': Invalid assignment target.".to_string())
    );
    assert_eq!(
        parse("(a) = 2;"),
        Err("line 1 Error at '=': Invalid assignment target.".to_string())
    );
}

#[test]
fn calls_and_arguments() {
    assert_eq!(parse_one("f();"), "(call f#0);");
    assert_eq!(parse_one("f(1, a, 2 + 3);"), "(call f#0 1 a#4 (+ 2 3));");
    assert_eq!(parse_one("f(1)(2)();"), "(call (call (call f#0 1) 2));");
    assert_eq!(
        parse("f(1;"),
        Err("line 1 Error at ';': Expect ')' after arguments.".to_string())
    );
}

#[test]
fn call_keeps_the_closing_parenthesis() {
    let mut parser = Parser::new(tokens_of("f(\n1\n);"));
    let statements = parser.parse().unwrap();
    match &statements[0] {
        Stmt::Expression { expression } => match &**expression {
            Expr::Call { paren, arguments, .. } => {
                assert_eq!(paren.type_t, Types::RIGHT_PAREN);
                assert_eq!(paren.line, 3);
                assert_eq!(arguments.len(), 1);
            }
            other => panic!("{:?}", other),
        },
        other => panic!("{:?}", other),
    }
}

#[test]
fn more_than_255_arguments_is_reported_and_parsing_goes_on() {
    let arguments: Vec<String> = (0..256).map(|i| i.to_string()).collect();
    let source = format!("f({}); print 1;", arguments.join(", "));
    let mut parser = Parser::new(tokens_of(&source));
    let result = parser.parse();
    assert_eq!(parser.errors.len(), 1);
    assert_eq!(
        parser.errors[0].to_string(),
        "line 1 Error at '255': Can't have more than 255 arguments."
    );
    assert_eq!(
        result.unwrap_err().to_string(),
        "line 1 Error at '255': Can't have more than 255 arguments."
    );
    let arguments: Vec<String> = (0..255).map(|i| i.to_string()).collect();
    let source = format!("f({});", arguments.join(", "));
    assert!(parse(&source).is_ok());
}

#[test]
fn more_than_255_parameters_is_reported_and_parsing_goes_on() {
    let parameters: Vec<String> = (0..257).map(|i| format!("p{}", i)).collect();
    let source = format!("fun f({}) {{ }} print 1;", parameters.join(", "));
    assert_eq!(
        messages(&source),
        vec![
            "line 1 Error at 'p255': Can't have more than 255 parameters.".to_string(),
            "line 1 Error at 'p256': Can't have more than 255 parameters.".to_string(),
        ]
    );
}

#[test]
fn statements() {
    assert_eq!(parse_one("print 1;"), "print 1;");
    assert_eq!(parse_one("var a;"), "var a = <nil>;");
    assert_eq!(parse_one("var a = 1;"), "var a = 1;");
    assert_eq!(parse_one("{ }"), "{  }");
    assert_eq!(parse_one("{ var a = 1; print a; }"), "{ var a = 1; print a#7; }");
    assert_eq!(parse_one("if (a) print 1;"), "if a#2 print 1;");
    assert_eq!(parse_one("if (a) print 1; else print 2;"), "if a#2 print 1; else print 2;");
    assert_eq!(parse_one("while (a) a = 1;"), "while a#2 (= a#4 1);");
    assert_eq!(parse_one("fun f() { return; }"), "fun f() { return <nil>; }");
    assert_eq!(parse_one("fun f(a, b) { return a + b; }"), "fun f(a,b) { return (+ a#9 b#11); }");
}

#[test]
fn else_belongs_to_the_nearest_if() {
    assert_eq!(
        parse_one("if (a) if (b) print 1; else print 2;"),
        "if a#2 if b#6 print 1; else print 2;"
    );
}

#[test]
fn return_keeps_its_keyword() {
    let mut parser = Parser::new(tokens_of("\nreturn 1;"));
    let statements = parser.parse().unwrap();
    match &statements[0] {
        Stmt::Return { keyword, .. } => {
            assert_eq!(keyword.type_t, Types::RETURN);
            assert_eq!(keyword.line, 2);
        }
        other => panic!("{:?}", other),
    }
}

#[test]
fn for_loop_is_a_block_and_a_while() {
    assert_eq!(
        parse_one("for (var i = 0; i < 3; i = i + 1) print i;"),
        "{ var i = 0; while (< i#7 3) { print i#18; (= i#11 (+ i#13 1)); } }"
    );
}

#[test]
fn for_loop_without_its_parts() {
    assert_eq!(parse_one("for (;;) print 1;"), "while true print 1;");
    assert_eq!(parse_one("for (; a;) print 1;"), "while a#3 print 1;");
    assert_eq!(parse_one("for (;; a = 1) print 1;"), "while true { print 1; (= a#4 1); }");
    assert_eq!(parse_one("for (a = 0;;) print 1;"), "{ (= a#2 0); while true print 1; }");
    assert_eq!(
        parse_one("for (var i = 0; i < 3;) print i;"),
        "{ var i = 0; while (< i#7 3) print i#13; }"
    );
}

#[test]
fn for_loop_parses_as_its_desugared_form_does() {
    let sugared = parse_one("for (var i = 0; i < 3; i = i + 1) print i;");
    let plain = parse_one("{ var i = 0; while (i < 3) { print i; i = i + 1; } }");
    let strip = |text: &str| -> String {
        let mut out = String::new();
        let mut skipping = false;
        for c in text.chars() {
            if c == '#' {
                skipping = true;
            } else if skipping && c.is_ascii_digit() {
            } else {
                skipping = false;
                out.push(c);
            }
        }
        out
    };
    assert_eq!(strip(&sugared), strip(&plain));
}

#[test]
fn error_messages() {
    let cases = [
        ("print 1", "line 1 Error at end: Expect ';' after value"),
        ("1 +;", "line 1 Error at ';': Expect expression."),
        ("(1 + 2;", "line 1 Error at ';': Expect ')' after expression"),
        ("var 1 = 2;", "line 1 Error at '1': Expect a variable name."),
        ("var a = 1", "line 1 Error at end: Expect ';' after variable declaration."),
        ("{ print 1;", "line 1 Error at end: Expect '}' after block."),
        ("if a) print 1;", "line 1 Error at 'a': Expect '(' after 'if'."),
        ("if (a print 1;", "line 1 Error at 'print': Expect ')' after 'if'."),
        ("while a) print 1;", "line 1 Error at 'a': Expect '(' after 'if'."),
        ("for a;;) print 1;", "line 1 Error at 'a': Expect '(' after 'if'."),
        ("for (;a) print 1;", "line 1 Error at ')': Expect ';' after loop condition."),
        ("for (;;a print 1;", "line 1 Error at 'print': Expect ')' after for clauses."),
        ("return 1", "line 1 Error at end: Expect ';' after return value."),
        ("fun () {}", "line 1 Error at '(': Expect function name."),
        ("fun f {}", "line 1 Error at '{': Expect '(' after 'if'."),
        ("fun f(1) {}", "line 1 Error at '1': Expect parameter name."),
        ("fun f(a {}", "line 1 Error at '{': Expect ')' after parameters."),
        ("fun f(a) print 1;", "line 1 Error at 'print': Expect '{' before function body."),
        ("\n\nprint;", "line 3 Error at ';': Expect expression."),
    ];
    for (source, message) in cases {
        assert_eq!(parse(source), Err(message.to_string()), "{}", source);
    }
}

#[test]
fn parsing_goes_on_after_an_error() {
    assert_eq!(
        messages("print 1 print 2; var = 3; print 4;\nprint (5;"),
        vec![
            "line 1 Error at 'print': Expect ';' after value".to_string(),
            "line 1 Error at '=': Expect a variable name.".to_string(),
            "line 2 Error at ';': Expect ')' after expression".to_string(),
        ]
    );
}

#[test]
fn recovery_stops_behind_a_semicolon_or_before_a_statement() {
    let mut parser = Parser::new(tokens_of("1 + ; print 2; 3 4 5 var a = 6;"));
    let result = parser.parse();
    assert!(result.is_err());
    assert_eq!(parser.errors.len(), 2);
    assert_eq!(parser.errors[1].to_string(), "line 1 Error at '4': Expect ';' after value");
    let mut parser = Parser::new(tokens_of("+ 1; print 2;"));
    let _ = parser.parse();
    assert_eq!(parser.errors.len(), 1);
}

#[test]
fn a_block_goes_on_after_a_failed_declaration() {
    assert_eq!(
        messages("{ var = 1; print 2; } print 3;"),
        vec!["line 1 Error at '=': Expect a variable name.".to_string()]
    );
}

#[test]
fn parser_adds_a_missing_eof() {
    let mut tokens = tokens_of("print 1;");
    tokens.pop();
    let parser = Parser::new(tokens);
    assert_eq!(parser.tokens.len(), 4);
    assert_eq!(parser.tokens[3].type_t, Types::EOF);
    assert_eq!(parser.tokens[3].line, 1);
    let parser = Parser::new(Vec::new());
    assert_eq!(parser.tokens.len(), 1);
    assert_eq!(parser.tokens[0].type_t, Types::EOF);
    let parser = Parser::new(tokens_of("print 1;"));
    assert_eq!(parser.tokens.len(), 4);
    assert_eq!(parser.current, 0);
}

#[test]
fn for_statement_gives_the_block_and_the_loop() {
    let mut parser = Parser::new(tokens_of("for (var i = 0; i < 3; i = i + 1) print i; print 9;"));
    parser.current = 1;
    let statement = parser.for_statement().unwrap();
    assert_eq!(parser.current, 20);
    assert!(parser.errors.is_empty());
    match &statement {
        Stmt::Block { statements } => {
            assert_eq!(statements.len(), 2);
            assert_eq!(show_stmt(&statements[0]), "var i = 0;");
            match &statements[1] {
                Stmt::While { condition, body } => {
                    assert_eq!(show_expr(condition), "(< i#7 3)");
                    match &**body {
                        Stmt::Block { statements } => {
                            assert_eq!(statements.len(), 2);
                            assert_eq!(show_stmt(&statements[0]), "print i#18;");
                            assert_eq!(show_stmt(&statements[1]), "(= i#11 (+ i#13 1));");
                        }
                        other => panic!("{:?}", other),
                    }
                }
                other => panic!("{:?}", other),
            }
        }
        other => panic!("{:?}", other),
    }
    let mut parser = Parser::new(tokens_of("for (;;) f();"));
    parser.current = 1;
    match parser.for_statement().unwrap() {
        Stmt::While { condition, body } => {
            assert!(matches!(*condition, Expr::Literal { value: Literal::Bool(true) }));
            assert_eq!(show_stmt(&body), "(call f#5);");
        }
        other => panic!("{:?}", other),
    }
    let mut parser = Parser::new(tokens_of("for (a; b) c;"));
    parser.current = 1;
    let error = parser.for_statement().unwrap_err();
    assert_eq!(error.to_string(), "line 1 Error at ')': Expect ';' after loop condition.");
}
