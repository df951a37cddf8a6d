use crate::expr::{Expr, ExprView};
use crate::function::{Function, FunctionView};
use crate::token::{Token, TokenView};
use std::rc::Rc;
use vstd::prelude::*;

verus! {

/// A statement. A function declaration is shared with the function values
/// made from it.
#[derive(Debug)]
pub enum Stmt {
    Expression { expression: Box<Expr> },
    Print { expression: Box<Expr> },
    Var { name: Token, initializer: Box<Expr> },
    Block { statements: Vec<Stmt> },
    If { condition: Box<Expr>, then_branch: Box<Stmt>, else_branch: Option<Box<Stmt>> },
    Function(Rc<Function>),
    While { condition: Box<Expr>, body: Box<Stmt> },
    Return { keyword: Token, value: Box<Expr> },
}

/// What a `Stmt` stands for.
pub enum StmtView {
    Expression { expression: ExprView },
    Print { expression: ExprView },
    Var { name: TokenView, initializer: ExprView },
    Block { statements: Seq<StmtView> },
    If { condition: ExprView, then_branch: Box<StmtView>, else_branch: Option<Box<StmtView>> },
    Function(FunctionView),
    While { condition: ExprView, body: Box<StmtView> },
    Return { keyword: TokenView, value: ExprView },
}

impl Stmt {
    /// What the statement stands for.
    pub open spec fn view(&self) -> StmtView
        decreases self,
    {
        match self {
            Stmt::Expression { expression } => StmtView::Expression {
                expression: expression.view(),
            },
            Stmt::Print { expression } => StmtView::Print { expression: expression.view() },
            Stmt::Var { name, initializer } => StmtView::Var {
                name: name.view(),
                initializer: initializer.view(),
            },
            Stmt::Block { statements } => StmtView::Block { statements: stmts_view(statements) },
            Stmt::If { condition, then_branch, else_branch } => StmtView::If {
                condition: condition.view(),
                then_branch: Box::new(then_branch.view()),
                else_branch: match else_branch {
                    Some(branch) => Some(Box::new(branch.view())),
                    None => None,
                },
            },
            Stmt::Function(function) => StmtView::Function(function.view()),
            Stmt::While { condition, body } => StmtView::While {
                condition: condition.view(),
                body: Box::new(body.view()),
            },
            Stmt::Return { keyword, value } => StmtView::Return {
                keyword: keyword.view(),
                value: value.view(),
            },
        }
    }
}

/// The views of a list of statements, in order.
pub open spec fn stmts_view(stmts: &Vec<Stmt>) -> Seq<StmtView>
    decreases stmts,
{
    Seq::new(
        stmts.len() as nat,
        |i: int|
            if 0 <= i < stmts.len() {
                stmts[i].view()
            } else {
                arbitrary()
            },
    )
}

} // verus!
