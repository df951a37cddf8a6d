use crate::clock::random_id;
use crate::stmt::{stmts_view, Stmt, StmtView};
use crate::token::{tokens_view, Token, TokenView};
use std::rc::Rc;
use vstd::prelude::*;
use vstd::string::StringExecFns;

verus! {

/// `Rc::clone` gives another pointer to the same allocation, so what it points
/// to is the same value.
#[verifier::external_body]
pub(crate) fn share<T>(rc: &Rc<T>) -> (res: Rc<T>)
    ensures
        res == *rc,
{
    Rc::clone(rc)
}

/// A function declaration: its name, its parameters and its body.
#[derive(Debug)]
pub struct Function {
    pub name: Token,
    pub param: Vec<Token>,
    pub body: Vec<Stmt>,
}

/// What a `Function` stands for.
pub struct FunctionView {
    pub name: TokenView,
    pub param: Seq<TokenView>,
    pub body: Seq<StmtView>,
}

impl Function {
    /// What the declaration stands for.
    pub open spec fn view(&self) -> FunctionView
        decreases self,
    {
        FunctionView {
            name: self.name.view(),
            param: tokens_view(&self.param),
            body: stmts_view(&self.body),
        }
    }
}

/// A function value: a declaration, the environment that was current where
/// the declaration was executed, and an identity.
#[derive(Debug)]
pub struct LuxFunction {
    pub declaration: Rc<Function>,
    pub id: usize,
    pub closure: usize,
}

/// What a `LuxFunction` stands for.
pub struct LuxFunctionView {
    pub declaration: FunctionView,
    pub id: usize,
    pub closure: usize,
}

impl LuxFunction {
    /// What the function value stands for.
    pub open spec fn view(&self) -> LuxFunctionView
        decreases self,
    {
        LuxFunctionView {
            declaration: self.declaration.view(),
            id: self.id,
            closure: self.closure,
        }
    }

    /// The function value with the given identity.
    pub fn with_id(declaration: Rc<Function>, closure: usize, id: usize) -> (f: LuxFunction)
        ensures
            f == (LuxFunction { declaration, id, closure }),
    {
        LuxFunction { declaration, id, closure }
    }

    /// A function value with an identity drawn at random.
    pub fn new(declaration: Rc<Function>, closure: usize) -> (f: LuxFunction)
        ensures
            f.declaration == declaration,
            f.closure == closure,
    {
        LuxFunction::with_id(declaration, closure, random_id())
    }

    /// The same function value once more; the declaration is shared.
    pub fn duplicate(&self) -> (f: LuxFunction)
        ensures
            f == *self,
    {
        LuxFunction { declaration: share(&self.declaration), id: self.id, closure: self.closure }
    }

    /// The number of parameters.
    pub fn arity(&self) -> (n: usize)
        ensures
            n == self@.declaration.param.len(),
    {
        self.declaration.param.len()
    }

    /// The identity given at construction.
    pub fn id(&self) -> (id: usize)
        ensures
            id == self.id,
    {
        self.id
    }

    /// The display form: the name between `<fn ` and `>`.
    pub fn to_str(&self) -> (text: String)
        ensures
            text@ == "<fn "@ + self@.declaration.name.lexeme + ">"@,
    {
        let mut text = "<fn ".to_string();
        text.append(self.declaration.name.lexeme.as_str());
        text.append(">");
        text
    }
}

} // verus!
