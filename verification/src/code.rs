//! Machine instructions and instruction sequences.

use crate::ast::{Op1, Op2};
use vstd::prelude::*;

verus! {

/// The mathematical content of an instruction.
pub enum Instr {
    Int(i32),
    Bool(bool),
    Unary(Op1),
    Binary(Op2),
    Access(usize),
    Closure(Seq<Instr>),
    Ifte(Seq<Instr>, Seq<Instr>),
    Let,
    EndLet,
    Apply,
    Return,
}

/// A persistent sequence of instructions, front first. It holds an
/// `im::Vector`, which shares structure between copies; an instruction can
/// hold such a sequence in turn, so the vector is kept behind this type and
/// its contents are known only as `code_items`.
#[verifier::external_body]
#[derive(Debug, PartialEq)]
pub struct Code {
    items: im::Vector<CMD>,
}

/// The instructions that a `Code` holds, front first.
pub uninterp spec fn code_items(c: Code) -> Seq<Instr>;

/// A machine instruction.
#[derive(Debug, PartialEq)]
pub enum CMD {
    INT(i32),
    BOOL(bool),
    ADD,
    SUB,
    MUL,
    DIV,
    LTE,
    GTE,
    LT,
    GT,
    EQ,
    NEQ,
    AND,
    OR,
    NEG,
    NOT,
    ACCESS(usize),
    CLOSURE(Code),
    IFTE(Code, Code),
    LET,
    ENDLET,
    APPLY,
    RETURN,
}

impl View for CMD {
    type V = Instr;

    open spec fn view(&self) -> Instr {
        match *self {
            CMD::INT(i) => Instr::Int(i),
            CMD::BOOL(b) => Instr::Bool(b),
            CMD::ADD => Instr::Binary(Op2::Add),
            CMD::SUB => Instr::Binary(Op2::Sub),
            CMD::MUL => Instr::Binary(Op2::Mul),
            CMD::DIV => Instr::Binary(Op2::Div),
            CMD::LTE => Instr::Binary(Op2::Lte),
            CMD::GTE => Instr::Binary(Op2::Gte),
            CMD::LT => Instr::Binary(Op2::Lt),
            CMD::GT => Instr::Binary(Op2::Gt),
            CMD::EQ => Instr::Binary(Op2::Eq),
            CMD::NEQ => Instr::Binary(Op2::Neq),
            CMD::AND => Instr::Binary(Op2::And),
            CMD::OR => Instr::Binary(Op2::Or),
            CMD::NEG => Instr::Unary(Op1::Neg),
            CMD::NOT => Instr::Unary(Op1::Not),
            CMD::ACCESS(i) => Instr::Access(i),
            CMD::CLOSURE(c) => Instr::Closure(code_items(c)),
            CMD::IFTE(c1, c2) => Instr::Ifte(code_items(c1), code_items(c2)),
            CMD::LET => Instr::Let,
            CMD::ENDLET => Instr::EndLet,
            CMD::APPLY => Instr::Apply,
            CMD::RETURN => Instr::Return,
        }
    }
}

impl Clone for Code {
    /// `im::Vector::clone`: the copy holds the same instructions.
    #[verifier::external_body]
    fn clone(&self) -> (r: Self)
        ensures
            code_items(r) == code_items(*self),
    {
        Code { items: self.items.clone() }
    }
}

impl Clone for CMD {
    fn clone(&self) -> (r: Self)
        ensures
            r@ == self@,
    {
        match self {
            CMD::INT(i) => CMD::INT(*i),
            CMD::BOOL(b) => CMD::BOOL(*b),
            CMD::ADD => CMD::ADD,
            CMD::SUB => CMD::SUB,
            CMD::MUL => CMD::MUL,
            CMD::DIV => CMD::DIV,
            CMD::LTE => CMD::LTE,
            CMD::GTE => CMD::GTE,
            CMD::LT => CMD::LT,
            CMD::GT => CMD::GT,
            CMD::EQ => CMD::EQ,
            CMD::NEQ => CMD::NEQ,
            CMD::AND => CMD::AND,
            CMD::OR => CMD::OR,
            CMD::NEG => CMD::NEG,
            CMD::NOT => CMD::NOT,
            CMD::ACCESS(i) => CMD::ACCESS(*i),
            CMD::CLOSURE(c) => CMD::CLOSURE(c.clone()),
            CMD::IFTE(c1, c2) => CMD::IFTE(c1.clone(), c2.clone()),
            CMD::LET => CMD::LET,
            CMD::ENDLET => CMD::ENDLET,
            CMD::APPLY => CMD::APPLY,
            CMD::RETURN => CMD::RETURN,
        }
    }
}

impl Op1 {
    /// The instruction that applies this operator.
    pub fn compile(&self) -> (c: CMD)
        ensures
            c@ == Instr::Unary(*self),
    {
        match self {
            Op1::Neg => CMD::NEG,
            Op1::Not => CMD::NOT,
        }
    }
}

impl Op2 {
    /// The instruction that applies this operator.
    pub fn compile(&self) -> (c: CMD)
        ensures
            c@ == Instr::Binary(*self),
    {
        match self {
            Op2::Add => CMD::ADD,
            Op2::Sub => CMD::SUB,
            Op2::Mul => CMD::MUL,
            Op2::Div => CMD::DIV,
            Op2::Lte => CMD::LTE,
            Op2::Gte => CMD::GTE,
            Op2::Lt => CMD::LT,
            Op2::Gt => CMD::GT,
            Op2::Eq => CMD::EQ,
            Op2::Neq => CMD::NEQ,
            Op2::And => CMD::AND,
            Op2::Or => CMD::OR,
        }
    }
}

impl Code {
    /// `im::Vector::new`: an empty sequence.
    #[verifier::external_body]
    pub(crate) fn new() -> (r: Code)
        ensures
            code_items(r) == Seq::<Instr>::empty(),
    {
        Code { items: im::Vector::new() }
    }

    /// `im::Vector::len`: the number of instructions held.
    #[verifier::external_body]
    pub(crate) fn len(&self) -> (n: usize)
        ensures
            n == code_items(*self).len(),
    {
        self.items.len()
    }

    /// `im::Vector::push_back`: the instruction is added at the back. The
    /// outside function stops the program when the length would pass
    /// `usize::MAX`, so that case is left out.
    #[verifier::external_body]
    pub(crate) fn push_back(&mut self, c: CMD)
        requires
            code_items(*old(self)).len() < usize::MAX,
        ensures
            code_items(*final(self)) == code_items(*old(self)).push(c@),
    {
        self.items.push_back(c)
    }

    /// `im::Vector::pop_front`: on an empty sequence `None`, with nothing
    /// changed; otherwise the front instruction, which leaves the sequence.
    #[verifier::external_body]
    pub(crate) fn pop_front(&mut self) -> (r: Option<CMD>)
        ensures
            code_items(*old(self)).len() == 0 ==> r is None && code_items(*final(self))
                == code_items(*old(self)),
            code_items(*old(self)).len() > 0 ==> r is Some && r->0@ == code_items(*old(self))[0]
                && code_items(*final(self)) == code_items(*old(self)).drop_first(),
    {
        self.items.pop_front()
    }

    /// `im::Vector::get`: the instruction at `i`, or `None` past the end.
    #[verifier::external_body]
    pub(crate) fn get(&self, i: usize) -> (r: Option<&CMD>)
        ensures
            i >= code_items(*self).len() ==> r is None,
            i < code_items(*self).len() ==> r is Some && r->0@ == code_items(*self)[i as int],
    {
        self.items.get(i)
    }

    /// `Add::add` on `im::Vector`: the instructions of `self` followed by
    /// those of `rest`. The outside function stops the program when the sum
    /// of the lengths passes `usize::MAX`, so that case is left out.
    #[verifier::external_body]
    pub(crate) fn concat(self, rest: Code) -> (r: Code)
        requires
            code_items(self).len() + code_items(rest).len() <= usize::MAX,
        ensures
            code_items(r) == code_items(self) + code_items(rest),
    {
        Code { items: self.items + rest.items }
    }
}

impl Code {
    /// The sequence that holds the instructions of `v`, in their order.
    pub fn from_vec(v: &Vec<CMD>) -> (r: Code)
        ensures
            r@.len() == v@.len(),
            forall|i: int| 0 <= i < v@.len() ==> r@[i] == v@[i]@,
    {
        let mut out = Code::new();
        let mut i: usize = 0;
        while i < v.len()
            invariant
                i <= v@.len(),
                out@.len() == i,
                forall|j: int| 0 <= j < i ==> out@[j] == v@[j]@,
            decreases v@.len() - i,
        {
            out.push_back(v[i].clone());
            i = i + 1;
        }
        out
    }

    /// The instructions of this sequence, in their order.
    pub fn to_vec(&self) -> (v: Vec<CMD>)
        ensures
            v@.len() == self@.len(),
            forall|i: int| 0 <= i < v@.len() ==> v@[i]@ == self@[i],
    {
        let mut v: Vec<CMD> = Vec::new();
        let n: usize = self.len();
        let mut i: usize = 0;
        while i < n
            invariant
                n == self@.len(),
                i <= n,
                v@.len() == i,
                forall|j: int| 0 <= j < i ==> v@[j]@ == self@[j],
            decreases n - i,
        {
            match self.get(i) {
                Some(c) => {
                    v.push(c.clone());
                },
                None => {},
            }
            i = i + 1;
        }
        v
    }
}

impl View for Code {
    type V = Seq<Instr>;

    open spec fn view(&self) -> Seq<Instr> {
        code_items(*self)
    }
}

} // verus!
