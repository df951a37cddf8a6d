use lux::gen_script::{define_ast, run_generator};

#[test]
fn generator_declares_the_expression_nodes() {
    assert_eq!(
        run_generator(),
        vec![
            "use crate::token::{Token, TokenLiteral};",
            "pub trait Expr {",
            "}",
            "pub struct Binary {",
            "left: Option<Box<Expr>>, right: Option<Box<Expr>>, operator: Token",
            "}",
            "impl Expr for Binary { }",
            "pub struct Grouping {",
            "expression: Option<Box<Expr>>",
            "}",
            "impl Expr for Grouping { }",
            "pub struct Literal {",
            "value: TokenLiteral",
            "}",
            "impl Expr for Literal { }",
            "pub struct Unary {",
            "operator: Token, right: Option<Box<Expr>>",
            "}",
            "impl Expr for Unary { }",
        ]
    );
}

#[test]
fn descriptions_are_cut_at_semicolons_and_trimmed() {
    let types = vec![
        " \tPrint\u{a0};  value: Expr ;ignored; too".to_string(),
        ";".to_string(),
        "Empty;".to_string(),
    ];
    assert_eq!(
        define_ast("Stmt", &types),
        vec![
            "use crate::token::{Token, TokenLiteral};",
            "pub trait Stmt {",
            "}",
            "pub struct Print {",
            "value: Expr",
            "}",
            "impl Stmt for Print { }",
            "pub struct  {",
            "",
            "}",
            "impl Stmt for  { }",
            "pub struct Empty {",
            "",
            "}",
            "impl Stmt for Empty { }",
        ]
    );
    assert_eq!(define_ast("T", &Vec::new()).len(), 3);
}
