use crate::literal::{Literal, LiteralView};
use crate::token::{Token, TokenView};
use vstd::prelude::*;

verus! {

/// An expression. A `Variable` or `Assign` node carries the number by which
/// its resolved distance is found again.
#[allow(inconsistent_fields)]
#[derive(Debug)]
pub enum Expr {
    Binary { left: Box<Expr>, right: Box<Expr>, operator: Token },
    Grouping { expression: Box<Expr> },
    Literal { value: Literal },
    Unary { operator: Token, right: Box<Expr> },
    Variable { name: Token, id: u64 },
    Assign { name: Token, value: Box<Expr>, id: u64 },
    Logical { left: Box<Expr>, operator: Token, right: Box<Expr> },
    Call { callee: Box<Expr>, paren: Token, arguments: Vec<Expr> },
    Nil,
}

/// What an `Expr` stands for.
#[allow(inconsistent_fields)]
pub enum ExprView {
    Binary { left: Box<ExprView>, right: Box<ExprView>, operator: TokenView },
    Grouping { expression: Box<ExprView> },
    Literal { value: LiteralView },
    Unary { operator: TokenView, right: Box<ExprView> },
    Variable { name: TokenView, id: u64 },
    Assign { name: TokenView, value: Box<ExprView>, id: u64 },
    Logical { left: Box<ExprView>, operator: TokenView, right: Box<ExprView> },
    Call { callee: Box<ExprView>, paren: TokenView, arguments: Seq<ExprView> },
    Nil,
}

impl Expr {
    /// What the expression stands for.
    pub open spec fn view(&self) -> ExprView
        decreases self,
    {
        match self {
            Expr::Binary { left, right, operator } => ExprView::Binary {
                left: Box::new(left.view()),
                right: Box::new(right.view()),
                operator: operator.view(),
            },
            Expr::Grouping { expression } => ExprView::Grouping {
                expression: Box::new(expression.view()),
            },
            Expr::Literal { value } => ExprView::Literal { value: value.view() },
            Expr::Unary { operator, right } => ExprView::Unary {
                operator: operator.view(),
                right: Box::new(right.view()),
            },
            Expr::Variable { name, id } => ExprView::Variable { name: name.view(), id: *id },
            Expr::Assign { name, value, id } => ExprView::Assign {
                name: name.view(),
                value: Box::new(value.view()),
                id: *id,
            },
            Expr::Logical { left, operator, right } => ExprView::Logical {
                left: Box::new(left.view()),
                operator: operator.view(),
                right: Box::new(right.view()),
            },
            Expr::Call { callee, paren, arguments } => ExprView::Call {
                callee: Box::new(callee.view()),
                paren: paren.view(),
                arguments: exprs_view(arguments),
            },
            Expr::Nil => ExprView::Nil,
        }
    }
}

/// The views of a list of expressions, in order.
pub open spec fn exprs_view(exprs: &Vec<Expr>) -> Seq<ExprView>
    decreases exprs,
{
    Seq::new(
        exprs.len() as nat,
        |i: int|
            if 0 <= i < exprs.len() {
                exprs[i].view()
            } else {
                arbitrary()
            },
    )
}

} // verus!
