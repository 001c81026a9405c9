//! Run-time values, value sequences and the faults of a run.

use crate::ast::{Op1, Op2};
use crate::code::{code_items, Code, Instr};
use vstd::prelude::*;

verus! {

/// The mathematical content of a value.
pub enum Val {
    Int(i32),
    Bool(bool),
    Clo(Seq<Instr>, Seq<Val>),
}

/// The variant of a value.
#[derive(Clone, Copy, Debug, PartialEq, Eq, Structural)]
pub enum Kind {
    Int,
    Bool,
    Closure,
}

/// The instruction at which operands are inspected.
#[derive(Clone, Copy, Debug, PartialEq, Eq, Structural)]
pub enum Operation {
    Unary(Op1),
    Binary(Op2),
    Branch,
}

/// Why compilation or a run stopped without a value.
#[derive(Clone, Debug, PartialEq, Eq)]
pub enum MachineFault {
    /// A variable that no enclosing binder declares.
    UnboundVariable(String),
    /// An operand of the wrong variant.
    TypeMismatch { op: Operation, expected: Kind, actual: Kind },
    /// A call of a value that is no closure.
    NotCallable(Kind),
    /// An environment lookup past the end of the environment.
    EnvironmentIndexOutOfRange(usize),
    /// A return that found no saved continuation under the result.
    CorruptContinuation(Kind),
    /// A division whose divisor is zero.
    DivisionByZero,
    /// An arithmetic result outside the range of `i32`.
    ArithmeticOverflow,
    /// An instruction that needs more operands than the stack holds.
    StackUnderflow,
    /// The code ran out while the stack held no value or more than one.
    MalformedProgram,
    /// A sequence that would hold more than `usize::MAX` entries.
    CapacityExceeded,
    /// The step budget ran out before the code did.
    OutOfFuel,
}

/// A persistent sequence of values, front first. The environment and the
/// operand stack are both of this type; the front is the innermost binding,
/// or the top of the stack. It holds an `im::Vector`, which shares structure
/// between copies, so a closure captures an environment without copying it;
/// a value can hold such a sequence in turn, so the vector is kept behind
/// this type and its contents are known only as `list_items`.
#[verifier::external_body]
#[derive(Debug, PartialEq)]
pub struct ValueList {
    items: im::Vector<Value>,
}

/// The values that a `ValueList` holds, front first.
pub uninterp spec fn list_items(l: ValueList) -> Seq<Val>;

/// A run-time value. A closure pairs the code of a function body with the
/// environment in which the function was made; the same shape on the stack
/// saves a caller's remaining code and environment across a call.
#[derive(Debug, PartialEq)]
pub enum Value {
    Int(i32),
    Bool(bool),
    Clo(Code, ValueList),
}

impl View for Value {
    type V = Val;

    open spec fn view(&self) -> Val {
        match *self {
            Value::Int(i) => Val::Int(i),
            Value::Bool(b) => Val::Bool(b),
            Value::Clo(c, e) => Val::Clo(code_items(c), list_items(e)),
        }
    }
}

impl View for ValueList {
    type V = Seq<Val>;

    open spec fn view(&self) -> Seq<Val> {
        list_items(*self)
    }
}

impl Val {
    /// The variant of a value's content.
    pub open spec fn kind(self) -> Kind {
        match self {
            Val::Int(_) => Kind::Int,
            Val::Bool(_) => Kind::Bool,
            Val::Clo(_, _) => Kind::Closure,
        }
    }
}

impl Clone for ValueList {
    /// `im::Vector::clone`: the copy holds the same values.
    #[verifier::external_body]
    fn clone(&self) -> (r: Self)
        ensures
            list_items(r) == list_items(*self),
    {
        ValueList { items: self.items.clone() }
    }
}

impl Clone for Value {
    fn clone(&self) -> (r: Self)
        ensures
            r@ == self@,
    {
        match self {
            Value::Int(i) => Value::Int(*i),
            Value::Bool(b) => Value::Bool(*b),
            Value::Clo(c, e) => Value::Clo(c.clone(), e.clone()),
        }
    }
}

impl Value {
    /// The variant of this value.
    pub fn kind(&self) -> (k: Kind)
        ensures
            k == self@.kind(),
    {
        match self {
            Value::Int(_) => Kind::Int,
            Value::Bool(_) => Kind::Bool,
            Value::Clo(_, _) => Kind::Closure,
        }
    }
}

impl ValueList {
    /// `im::Vector::new`: an empty sequence.
    #[verifier::external_body]
    pub(crate) fn new() -> (r: ValueList)
        ensures
            list_items(r) == Seq::<Val>::empty(),
    {
        ValueList { items: im::Vector::new() }
    }

    /// `im::Vector::len`: the number of values held.
    #[verifier::external_body]
    pub(crate) fn len(&self) -> (n: usize)
        ensures
            n == list_items(*self).len(),
    {
        self.items.len()
    }

    /// `im::Vector::push_front`: the value becomes the new front. The outside
    /// function stops the program when the length would pass `usize::MAX`,
    /// so that case is left out.
    #[verifier::external_body]
    pub(crate) fn push_front(&mut self, v: Value)
        requires
            list_items(*old(self)).len() < usize::MAX,
        ensures
            list_items(*final(self)) == seq![v@] + list_items(*old(self)),
    {
        self.items.push_front(v)
    }

    /// `im::Vector::pop_front`: on an empty sequence `None`, with nothing
    /// changed; otherwise the front value, which leaves the sequence.
    #[verifier::external_body]
    pub(crate) fn pop_front(&mut self) -> (r: Option<Value>)
        ensures
            list_items(*old(self)).len() == 0 ==> r is None && list_items(*final(self))
                == list_items(*old(self)),
            list_items(*old(self)).len() > 0 ==> r is Some && r->0@ == list_items(*old(self))[0]
                && list_items(*final(self)) == list_items(*old(self)).drop_first(),
    {
        self.items.pop_front()
    }

    /// `im::Vector::get`: the value at `i`, or `None` past the end.
    #[verifier::external_body]
    pub(crate) fn get(&self, i: usize) -> (r: Option<&Value>)
        ensures
            i >= list_items(*self).len() ==> r is None,
            i < list_items(*self).len() ==> r is Some && r->0@ == list_items(*self)[i as int],
    {
        self.items.get(i)
    }
}

} // verus!
