//! The abstract syntax of the language.

use std::rc::Rc;
use vstd::prelude::*;

verus! {

/// Unary operators.
#[derive(Clone, Copy, Debug, PartialEq, Eq, Structural)]
pub enum Op1 {
    Neg,
    Not,
}

/// Binary operators.
#[derive(Clone, Copy, Debug, PartialEq, Eq, Structural)]
pub enum Op2 {
    Add,
    Sub,
    Mul,
    Div,
    Lte,
    Gte,
    Lt,
    Gt,
    Eq,
    Neq,
    And,
    Or,
}

/// A term of the language. `Fun(f, x, body)` binds `f` to the function itself
/// and `x` to its argument inside `body`.
#[derive(Clone, Debug)]
pub enum Term {
    Int(i32),
    Bool(bool),
    Var(String),
    Op1(Op1, Rc<Term>),
    Op2(Op2, Rc<Term>, Rc<Term>),
    Fun(String, String, Rc<Term>),
    App(Rc<Term>, Rc<Term>),
    LetIn(String, Rc<Term>, Rc<Term>),
    Ifte(Rc<Term>, Rc<Term>, Rc<Term>),
}

} // verus!
