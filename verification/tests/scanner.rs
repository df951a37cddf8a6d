use lux::literal::{Float, Literal};
use lux::scanner::Scanner;
use lux::token::Token;
use lux::token_type::Types;

fn scan(source: &str) -> Scanner {
    let mut scanner = Scanner::new(source.to_string());
    scanner.scan_tokens();
    scanner
}

fn kinds(tokens: &[Token]) -> Vec<Types> {
    tokens.iter().map(|token| token.type_t).collect()
}

fn lexemes(tokens: &[Token]) -> Vec<String> {
    tokens.iter().map(|token| token.lexeme.clone()).collect()
}

#[test]
fn empty_source_gives_only_eof() {
    let scanner = scan("");
    assert_eq!(kinds(&scanner.tokens), vec![Types::EOF]);
    assert_eq!(scanner.tokens[0].lexeme, "");
    assert_eq!(scanner.tokens[0].line, 1);
    assert!(scanner.errors.is_empty());
}

#[test]
fn single_character_tokens() {
    let scanner = scan("(){},.-+;*/");
    assert_eq!(
        kinds(&scanner.tokens),
        vec![
            Types::LEFT_PAREN,
            Types::RIGHT_PAREN,
            Types::LEFT_BRACE,
            Types::RIGHT_BRACE,
            Types::COMMA,
            Types::DOT,
            Types::MINUS,
            Types::PLUS,
            Types::SEMICOLON,
            Types::STAR,
            Types::SLASH,
            Types::EOF,
        ]
    );
    assert_eq!(
        lexemes(&scanner.tokens),
        vec!["(", ")", "{", "}", ",", ".", "-", "+", ";", "*", "/", ""]
    );
}

#[test]
fn one_and_two_character_operators() {
    let scanner = scan("! != = == < <= > >=");
    assert_eq!(
        kinds(&scanner.tokens),
        vec![
            Types::BANG,
            Types::BANG_EQUAL,
            Types::EQUAL,
            Types::EQUAL_EQUAL,
            Types::LESS,
            Types::LESS_EQUAL,
            Types::GREATER,
            Types::GREATER_EQUAL,
            Types::EOF,
        ]
    );
    assert_eq!(lexemes(&scanner.tokens), vec!["!", "!=", "=", "==", "<", "<=", ">", ">=", ""]);
}

#[test]
fn operator_at_the_end_of_the_source() {
    let scanner = scan("!");
    assert_eq!(kinds(&scanner.tokens), vec![Types::BANG, Types::EOF]);
}

#[test]
fn comment_runs_to_the_end_of_the_line() {
    let scanner = scan("1 // two three\n4");
    assert_eq!(kinds(&scanner.tokens), vec![Types::NUMBER, Types::NUMBER, Types::EOF]);
    assert_eq!(scanner.tokens[1].line, 2);
    let scanner = scan("// only a comment");
    assert_eq!(kinds(&scanner.tokens), vec![Types::EOF]);
}

#[test]
fn whitespace_is_skipped_and_newlines_are_counted() {
    let scanner = scan(" \t\r\n\n  x");
    assert_eq!(kinds(&scanner.tokens), vec![Types::IDENTIFIER, Types::EOF]);
    assert_eq!(scanner.tokens[0].line, 3);
    assert_eq!(scanner.tokens[1].line, 3);
    assert_eq!(scanner.line, 3);
}

#[test]
fn string_literal_holds_the_text_between_the_quotes() {
    let scanner = scan("\"hello world\"");
    assert_eq!(kinds(&scanner.tokens), vec![Types::STRING, Types::EOF]);
    assert_eq!(scanner.tokens[0].lexeme, "\"hello world\"");
    assert!(scanner.tokens[0].literal.equals(&Literal::String("hello world".to_string())));
}

#[test]
fn string_literal_may_span_lines() {
    let scanner = scan("\"a\nb\" x");
    assert_eq!(kinds(&scanner.tokens), vec![Types::STRING, Types::IDENTIFIER, Types::EOF]);
    assert!(scanner.tokens[0].literal.equals(&Literal::String("a\nb".to_string())));
    assert_eq!(scanner.tokens[0].line, 2);
    assert_eq!(scanner.tokens[1].line, 2);
}

#[test]
fn unterminated_string_is_a_diagnostic() {
    let scanner = scan("1 \"abc");
    assert_eq!(kinds(&scanner.tokens), vec![Types::NUMBER, Types::EOF]);
    assert_eq!(scanner.errors.len(), 1);
    assert_eq!(scanner.errors[0].message, "Unterminated string");
    assert_eq!(scanner.errors[0].line, 1);
    assert_eq!(scanner.errors[0].location, "");
}

#[test]
fn unexpected_characters_are_reported_and_scanning_goes_on() {
    let scanner = scan("@ 1\n# 2");
    assert_eq!(kinds(&scanner.tokens), vec![Types::NUMBER, Types::NUMBER, Types::EOF]);
    assert_eq!(scanner.errors.len(), 2);
    assert_eq!(scanner.errors[0].message, "Unexpected character");
    assert_eq!(scanner.errors[0].line, 1);
    assert_eq!(scanner.errors[1].line, 2);
}

#[test]
fn scan_token_returns_the_diagnostic() {
    let mut scanner = Scanner::new("@".to_string());
    let error = scanner.scan_token().unwrap_err();
    assert_eq!(error.message, "Unexpected character");
    assert_eq!(scanner.current, 1);
    assert!(scanner.tokens.is_empty());
}

#[test]
fn number_literals() {
    let scanner = scan("12 3.5 7. .5");
    assert_eq!(
        kinds(&scanner.tokens),
        vec![
            Types::NUMBER,
            Types::NUMBER,
            Types::NUMBER,
            Types::DOT,
            Types::DOT,
            Types::NUMBER,
            Types::EOF,
        ]
    );
    assert_eq!(lexemes(&scanner.tokens), vec!["12", "3.5", "7", ".", ".", "5", ""]);
    assert!(scanner.tokens[0].literal.equals(&Literal::Number(Float(12.0f64.to_bits()))));
    assert!(scanner.tokens[1].literal.equals(&Literal::Number(Float(3.5f64.to_bits()))));
    assert!(scanner.tokens[2].literal.equals(&Literal::Number(Float(7.0f64.to_bits()))));
}

#[test]
fn number_is_read_as_the_nearest_double() {
    let scanner = scan("0.1 123456789.125 0.30000000000000004");
    assert!(scanner.tokens[0].literal.equals(&Literal::Number(Float(0.1f64.to_bits()))));
    assert!(scanner.tokens[1].literal.equals(&Literal::Number(Float(123456789.125f64.to_bits()))));
    assert!(scanner.tokens[2].literal.equals(&Literal::Number(Float((0.1f64 + 0.2f64).to_bits()))));
}

#[test]
fn identifiers_and_keywords() {
    let scanner = scan("and class else false for fun if nil or print return super this true var while");
    assert_eq!(
        kinds(&scanner.tokens),
        vec![
            Types::AND,
            Types::CLASS,
            Types::ELSE,
            Types::FALSE,
            Types::FOR,
            Types::FUN,
            Types::IF,
            Types::NIL,
            Types::OR,
            Types::PRINT,
            Types::RETURN,
            Types::SUPER,
            Types::THIS,
            Types::TRUE,
            Types::VAR,
            Types::WHILE,
            Types::EOF,
        ]
    );
    let scanner = scan("andy _x x1 classy For");
    assert_eq!(
        kinds(&scanner.tokens),
        vec![
            Types::IDENTIFIER,
            Types::IDENTIFIER,
            Types::IDENTIFIER,
            Types::IDENTIFIER,
            Types::IDENTIFIER,
            Types::EOF,
        ]
    );
    assert_eq!(lexemes(&scanner.tokens), vec!["andy", "_x", "x1", "classy", "For", ""]);
}

#[test]
fn characters_are_unicode_scalars() {
    let scanner = scan("\"héllo ✓\" x");
    assert_eq!(kinds(&scanner.tokens), vec![Types::STRING, Types::IDENTIFIER, Types::EOF]);
    assert!(scanner.tokens[0].literal.equals(&Literal::String("héllo ✓".to_string())));
    assert_eq!(scanner.tokens[1].lexeme, "x");
    let scanner = scan("é");
    assert_eq!(kinds(&scanner.tokens), vec![Types::EOF]);
    assert_eq!(scanner.errors.len(), 1);
}

#[test]
fn advance_and_add_token_work_on_the_window() {
    let mut scanner = Scanner::new("ab".to_string());
    assert_eq!(scanner.advance(), 'a');
    assert_eq!(scanner.advance(), 'b');
    scanner.add_token(Types::IDENTIFIER);
    assert_eq!(scanner.tokens.len(), 1);
    assert_eq!(scanner.tokens[0].lexeme, "ab");
    assert_eq!(scanner.tokens[0].line, 1);
}

#[test]
fn scanning_twice_gives_the_same_tokens() {
    let source = "var a = 1; // c\nprint a + \"s\";";
    let first = scan(source);
    let second = scan(source);
    assert_eq!(kinds(&first.tokens), kinds(&second.tokens));
    assert_eq!(lexemes(&first.tokens), lexemes(&second.tokens));
    assert_eq!(first.tokens.len(), 11);
}

#[test]
fn the_only_eof_token_is_the_last() {
    let scanner = scan("print 1;\nprint 2;");
    let tokens = &scanner.tokens;
    assert_eq!(tokens.last().unwrap().type_t, Types::EOF);
    assert_eq!(tokens.iter().filter(|t| t.type_t == Types::EOF).count(), 1);
    assert_eq!(tokens.last().unwrap().line, 2);
}

#[test]
fn a_lexeme_scans_as_its_token() {
    let source = "var answer = (40 + 2.5) * -x != \"a\nb\"; // note\nif (a <= b and !c) { print \"s\"; } else while (true) f(1, nil) / 3 >= 4;";
    let scanner = scan(source);
    assert!(scanner.errors.is_empty());
    assert_eq!(scanner.tokens.len(), 45);
    for token in &scanner.tokens {
        if token.type_t == Types::EOF {
            continue;
        }
        let mut alone = Scanner::new(token.lexeme.clone());
        alone.scan_tokens();
        assert!(alone.errors.is_empty());
        assert_eq!(alone.tokens.len(), 2, "{}", token.lexeme);
        assert_eq!(alone.tokens[0].type_t, token.type_t);
        assert_eq!(alone.tokens[0].lexeme, token.lexeme);
        assert!(alone.tokens[0].literal.equals(&token.literal));
    }
}

#[test]
fn line_counter_stops_at_the_largest_number() {
    let mut scanner = Scanner::new("a\nb \"x\ny\"\n".to_string());
    scanner.line = usize::MAX - 1;
    scanner.scan_tokens();
    let lines: Vec<usize> = scanner.tokens.iter().map(|token| token.line).collect();
    assert_eq!(lines, vec![usize::MAX - 1, usize::MAX, usize::MAX, usize::MAX]);
    assert_eq!(scanner.line, usize::MAX);
}

#[test]
fn scanning_goes_on_from_the_current_position() {
    let mut scanner = Scanner::new("skip this".to_string());
    scanner.current = 5;
    scanner.start = 5;
    scanner.scan_tokens();
    assert_eq!(lexemes(&scanner.tokens), vec!["this", ""]);
}

#[test]
fn number_token_takes_what_was_read() {
    let mut scanner = Scanner::new("12".to_string());
    scanner.advance();
    scanner.advance();
    assert!(scanner.number_token(Some(Float(12.0f64.to_bits()))).is_ok());
    assert_eq!(scanner.tokens.len(), 1);
    assert_eq!(scanner.tokens[0].type_t, Types::NUMBER);
    assert_eq!(scanner.tokens[0].lexeme, "12");
    assert_eq!(scanner.tokens[0].line, 1);
    assert!(scanner.tokens[0].literal.equals(&Literal::Number(Float(12.0f64.to_bits()))));
    let error = scanner.number_token(None).unwrap_err();
    assert_eq!(error.message, "Invalid number");
    assert_eq!(error.line, 1);
    assert_eq!(error.location, "");
    assert_eq!(scanner.tokens.len(), 1);
    assert_eq!(scanner.current, 2);
}

#[test]
fn tokens_joined_by_spaces_scan_as_themselves() {
    let sources = [
        "",
        "   // nothing\n",
        "var answer=(40+2.5)*-x!=\"a\nb\";// note\nif(a<=b and!c){print\"s\";}else while(true)f(1,nil)/3>=4;",
        "1.5.x 7..2 a.b!==c<==d",
        "print 1 @ 2; # \"closed\" or",
        "fun f(a,b){return a/b;}\n\n\nf(1,2);",
    ];
    for source in sources {
        let first = scan(source);
        let text = lexemes(&first.tokens).join(" ");
        let second = scan(&text);
        assert!(second.errors.is_empty(), "{:?}", text);
        assert_eq!(second.tokens.len(), first.tokens.len(), "{:?}", text);
        for (again, token) in second.tokens.iter().zip(first.tokens.iter()) {
            assert_eq!(again.type_t, token.type_t);
            assert_eq!(again.lexeme, token.lexeme);
            assert!(again.literal.equals(&token.literal));
        }
    }
    let first = scan("a\n\"x\ny\" b");
    let second = scan(&lexemes(&first.tokens).join(" "));
    let lines: Vec<usize> = second.tokens.iter().map(|token| token.line).collect();
    assert_eq!(lines, vec![1, 2, 2, 2]);
}
