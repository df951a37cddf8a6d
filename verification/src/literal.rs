use crate::clock::Clock;
use crate::function::{LuxFunction, LuxFunctionView};
use crate::number::{
    difference_bits, ieee_add, ieee_div, ieee_less, ieee_less_equal,
    ieee_mul, ieee_negate, ieee_read, ieee_shortest_text, ieee_sub, less_equal_spec, less_spec,
    negated_bits, number_text, product_bits, quotient_bits, read_bits, sum_bits,
};
use vstd::prelude::*;

verus! {

/// An IEEE 754 double, held as its bit pattern.
#[derive(Clone, Copy, Debug, PartialEq, Eq, Hash, Structural)]
pub struct Float(pub u64);

impl Float {
    /// The sum of two doubles.
    pub fn add(self, rhs: Float) -> (r: Float)
        ensures
            r.0 == sum_bits(self.0, rhs.0),
    {
        Float(ieee_add(self.0, rhs.0))
    }

    /// The difference of two doubles.
    pub fn sub(self, rhs: Float) -> (r: Float)
        ensures
            r.0 == difference_bits(self.0, rhs.0),
    {
        Float(ieee_sub(self.0, rhs.0))
    }

    /// The product of two doubles.
    pub fn mul(self, rhs: Float) -> (r: Float)
        ensures
            r.0 == product_bits(self.0, rhs.0),
    {
        Float(ieee_mul(self.0, rhs.0))
    }

    /// The quotient of two doubles; a zero divisor gives an infinity or a NaN.
    pub fn div(self, rhs: Float) -> (r: Float)
        ensures
            r.0 == quotient_bits(self.0, rhs.0),
    {
        Float(ieee_div(self.0, rhs.0))
    }

    /// The double with its sign flipped.
    pub fn neg(self) -> (r: Float)
        ensures
            r.0 == negated_bits(self.0),
    {
        Float(ieee_negate(self.0))
    }

    /// IEEE 754 `<`.
    pub fn less(self, rhs: Float) -> (r: bool)
        ensures
            r == less_spec(self.0, rhs.0),
    {
        ieee_less(self.0, rhs.0)
    }

    /// IEEE 754 `<=`.
    pub fn less_equal(self, rhs: Float) -> (r: bool)
        ensures
            r == less_equal_spec(self.0, rhs.0),
    {
        ieee_less_equal(self.0, rhs.0)
    }

    /// The double that a decimal text denotes, if the text is one.
    pub fn parse(text: &str) -> (r: Option<Float>)
        ensures
            r == match read_bits(text@) {
                Some(bits) => Some(Float(bits)),
                None => None,
            },
    {
        match ieee_read(text) {
            Some(bits) => Some(Float(bits)),
            None => None,
        }
    }

    /// The decimal text of the double: the shortest that is read as the same
    /// double again.
    pub fn to_string(&self) -> (text: String)
        ensures
            text@ == number_text(self.0),
    {
        ieee_shortest_text(self.0)
    }
}

/// A literal of the source text, and a value at run time.
#[derive(Debug)]
pub enum Literal {
    Number(Float),
    String(String),
    Bool(bool),
    Nil,
    Clock(Clock),
    Function(Box<LuxFunction>),
}

/// What a `Literal` stands for.
pub enum LiteralView {
    Number(u64),
    String(Seq<char>),
    Bool(bool),
    Nil,
    Clock(Clock),
    Function(Box<LuxFunctionView>),
}

/// `false` and `nil` are falsy; every other value is truthy.
pub open spec fn truthy(value: LiteralView) -> bool {
    match value {
        LiteralView::Bool(b) => b,
        LiteralView::Nil => false,
        _ => true,
    }
}

/// Equality of values: numbers by bit pattern, strings by text, callables by
/// identity; values of different variants are never equal.
pub open spec fn equal_values(a: LiteralView, b: LiteralView) -> bool {
    match (a, b) {
        (LiteralView::Number(x), LiteralView::Number(y)) => x == y,
        (LiteralView::String(x), LiteralView::String(y)) => x == y,
        (LiteralView::Bool(x), LiteralView::Bool(y)) => x == y,
        (LiteralView::Nil, LiteralView::Nil) => true,
        (LiteralView::Clock(x), LiteralView::Clock(y)) => x.id == y.id,
        (LiteralView::Function(x), LiteralView::Function(y)) => x.id == y.id,
        _ => false,
    }
}

/// The display form of a value.
pub open spec fn display_text(value: LiteralView) -> Seq<char> {
    match value {
        LiteralView::Number(bits) => number_text(bits),
        LiteralView::String(text) => text,
        LiteralView::Bool(b) => if b {
            "true"@
        } else {
            "false"@
        },
        LiteralView::Nil => "nil"@,
        LiteralView::Clock(_) => "<native fn>"@,
        LiteralView::Function(f) => "<fn "@ + f.declaration.name.lexeme + ">"@,
    }
}

impl Literal {
    /// What the value stands for.
    pub open spec fn view(&self) -> LiteralView
        decreases self,
    {
        match self {
            Literal::Number(n) => LiteralView::Number(n.0),
            Literal::String(s) => LiteralView::String(s@),
            Literal::Bool(b) => LiteralView::Bool(*b),
            Literal::Nil => LiteralView::Nil,
            Literal::Clock(c) => LiteralView::Clock(*c),
            Literal::Function(f) => LiteralView::Function(Box::new(f.view())),
        }
    }

    /// Whether the value counts as true in a condition.
    pub fn is_truthy(&self) -> (r: bool)
        ensures
            r == truthy(self@),
    {
        match self {
            Literal::Bool(b) => *b,
            Literal::Nil => false,
            _ => true,
        }
    }

    /// Whether two values are equal.
    pub fn equals(&self, other: &Literal) -> (r: bool)
        ensures
            r == equal_values(self@, other@),
    {
        match (self, other) {
            (Literal::Number(x), Literal::Number(y)) => x.0 == y.0,
            (Literal::String(x), Literal::String(y)) => *x == *y,
            (Literal::Bool(x), Literal::Bool(y)) => *x == *y,
            (Literal::Nil, Literal::Nil) => true,
            (Literal::Clock(x), Literal::Clock(y)) => x.id == y.id,
            (Literal::Function(x), Literal::Function(y)) => x.id == y.id,
            _ => false,
        }
    }

    /// The display form of the value.
    pub fn to_str(&self) -> (text: String)
        ensures
            text@ == display_text(self@),
    {
        match self {
            Literal::Number(n) => n.to_string(),
            Literal::String(s) => s.clone(),
            Literal::Bool(b) => if *b {
                "true".to_string()
            } else {
                "false".to_string()
            },
            Literal::Nil => "nil".to_string(),
            Literal::Clock(c) => c.to_str(),
            Literal::Function(f) => f.to_str(),
        }
    }
}

impl Clone for Literal {
    fn clone(&self) -> (r: Literal)
        ensures
            r@ == self@,
    {
        match self {
            Literal::Number(n) => Literal::Number(*n),
            Literal::String(s) => Literal::String(s.clone()),
            Literal::Bool(b) => Literal::Bool(*b),
            Literal::Nil => Literal::Nil,
            Literal::Clock(c) => Literal::Clock(*c),
            Literal::Function(f) => Literal::Function(Box::new(f.duplicate())),
        }
    }
}

impl PartialEq for Literal {
    /// Equality of values; see `equal_values`.
    fn eq(&self, other: &Literal) -> (r: bool) {
        self.equals(other)
    }
}

impl vstd::std_specs::cmp::PartialEqSpecImpl for Literal {
    open spec fn obeys_eq_spec() -> bool {
        true
    }

    open spec fn eq_spec(&self, other: &Literal) -> bool {
        equal_values(self@, other@)
    }
}

} // verus!
