//! The compiler: terms to instruction sequences, with every variable
//! resolved to its position in the run-time environment.

use crate::ast::Term;
use crate::code::{Code, Instr, CMD};
use crate::names::{bind_name, bound_names, copy_names, count_names, first_index, resolve};
use crate::value::MachineFault;
use std::rc::Rc;
use vstd::prelude::*;

verus! {

/// `acc` with one more instruction at its back, while the length fits a
/// `usize`.
pub open spec fn emitted(acc: Seq<Instr>, i: Instr) -> Result<Seq<Instr>, MachineFault> {
    if acc.len() < usize::MAX {
        Ok(acc.push(i))
    } else {
        Err(MachineFault::CapacityExceeded)
    }
}

impl Term {
    /// The code of this term, placed behind `acc`, under the names in scope
    /// (innermost first). Operands are compiled left to right, each in full;
    /// the first failure met in that order is the result.
    pub open spec fn compiled(self, names: Seq<Seq<char>>, acc: Seq<Instr>) -> Result<
        Seq<Instr>,
        MachineFault,
    >
        decreases self,
    {
        match self {
            Term::Int(i) => emitted(acc, Instr::Int(i)),
            Term::Bool(b) => emitted(acc, Instr::Bool(b)),
            Term::Var(x) => match first_index(names, x@) {
                Some(i) => emitted(acc, Instr::Access(i as usize)),
                None => Err(MachineFault::UnboundVariable(x)),
            },
            Term::Op1(op, m) => match m.compiled(names, acc) {
                Ok(a) => emitted(a, Instr::Unary(op)),
                Err(e) => Err(e),
            },
            Term::Op2(op, m, n) => match m.compiled(names, acc) {
                Ok(a) => match n.compiled(names, a) {
                    Ok(b) => emitted(b, Instr::Binary(op)),
                    Err(e) => Err(e),
                },
                Err(e) => Err(e),
            },
            Term::Fun(f, x, m) => if names.len() + 2 > usize::MAX {
                Err(MachineFault::CapacityExceeded)
            } else {
                match m.compiled(seq![f@] + (seq![x@] + names), Seq::empty()) {
                    Ok(body) => match emitted(body, Instr::Return) {
                        Ok(whole) => emitted(acc, Instr::Closure(whole)),
                        Err(e) => Err(e),
                    },
                    Err(e) => Err(e),
                }
            },
            Term::App(m, n) => match m.compiled(names, acc) {
                Ok(a) => match n.compiled(names, a) {
                    Ok(b) => emitted(b, Instr::Apply),
                    Err(e) => Err(e),
                },
                Err(e) => Err(e),
            },
            Term::LetIn(x, m, n) => match m.compiled(names, acc) {
                Ok(a) => match emitted(a, Instr::Let) {
                    Ok(b) => if names.len() + 1 > usize::MAX {
                        Err(MachineFault::CapacityExceeded)
                    } else {
                        match n.compiled(seq![x@] + names, b) {
                            Ok(c) => emitted(c, Instr::EndLet),
                            Err(e) => Err(e),
                        }
                    },
                    Err(e) => Err(e),
                },
                Err(e) => Err(e),
            },
            Term::Ifte(c, m, n) => match c.compiled(names, acc) {
                Ok(a) => match m.compiled(names, Seq::empty()) {
                    Ok(yes) => match n.compiled(names, Seq::empty()) {
                        Ok(no) => emitted(a, Instr::Ifte(yes, no)),
                        Err(e) => Err(e),
                    },
                    Err(e) => Err(e),
                },
                Err(e) => Err(e),
            },
        }
    }

    /// The code of this term on its own.
    pub open spec fn code(self, names: Seq<Seq<char>>) -> Seq<Instr> {
        self.compiled(names, Seq::empty())->Ok_0
    }

    /// Compiles this term under the names in scope, innermost first.
    pub fn compile<'a>(&'a self, names: im::Vector<&'a String>) -> (r: Result<Code, MachineFault>)
        ensures
            match r {
                Ok(c) => self.compiled(bound_names(names), Seq::empty()) == Ok::<
                    Seq<Instr>,
                    MachineFault,
                >(c@),
                Err(e) => self.compiled(bound_names(names), Seq::empty()) == Err::<
                    Seq<Instr>,
                    MachineFault,
                >(e),
            },
    {
        let mut out = Code::new();
        match self.compile_onto(&names, &mut out) {
            Ok(()) => Ok(out),
            Err(e) => Err(e),
        }
    }

    /// Compiles this term and places its code behind what `out` holds.
    fn compile_onto<'a>(&'a self, names: &im::Vector<&'a String>, out: &mut Code) -> (r: Result<
        (),
        MachineFault,
    >)
        ensures
            match r {
                Ok(()) => self.compiled(bound_names(*names), old(out)@) == Ok::<
                    Seq<Instr>,
                    MachineFault,
                >(final(out)@),
                Err(e) => self.compiled(bound_names(*names), old(out)@) == Err::<
                    Seq<Instr>,
                    MachineFault,
                >(e),
            },
        decreases self,
    {
        match self {
            Term::Int(i) => emit(out, CMD::INT(*i)),
            Term::Bool(b) => emit(out, CMD::BOOL(*b)),
            Term::Var(x) => match resolve(names, x) {
                Some(i) => emit(out, CMD::ACCESS(i)),
                None => Err(MachineFault::UnboundVariable(x.clone())),
            },
            Term::Op1(op, m) => {
                match m.compile_onto(names, out) {
                    Ok(()) => emit(out, op.compile()),
                    Err(e) => Err(e),
                }
            },
            Term::Op2(op, m, n) => {
                match m.compile_onto(names, out) {
                    Ok(()) => match n.compile_onto(names, out) {
                        Ok(()) => emit(out, op.compile()),
                        Err(e) => Err(e),
                    },
                    Err(e) => Err(e),
                }
            },
            Term::Fun(f, x, m) => {
                if count_names(names) >= usize::MAX - 1 {
                    return Err(MachineFault::CapacityExceeded);
                }
                let mut inner = copy_names(names);
                bind_name(&mut inner, x);
                bind_name(&mut inner, f);
                let mut body = Code::new();
                match m.compile_onto(&inner, &mut body) {
                    Ok(()) => match emit(&mut body, CMD::RETURN) {
                        Ok(()) => emit(out, CMD::CLOSURE(body)),
                        Err(e) => Err(e),
                    },
                    Err(e) => Err(e),
                }
            },
            Term::App(m, n) => {
                match m.compile_onto(names, out) {
                    Ok(()) => match n.compile_onto(names, out) {
                        Ok(()) => emit(out, CMD::APPLY),
                        Err(e) => Err(e),
                    },
                    Err(e) => Err(e),
                }
            },
            Term::LetIn(x, m, n) => {
                match m.compile_onto(names, out) {
                    Ok(()) => match emit(out, CMD::LET) {
                        Ok(()) => {
                            if count_names(names) >= usize::MAX {
                                return Err(MachineFault::CapacityExceeded);
                            }
                            let mut inner = copy_names(names);
                            bind_name(&mut inner, x);
                            match n.compile_onto(&inner, out) {
                                Ok(()) => emit(out, CMD::ENDLET),
                                Err(e) => Err(e),
                            }
                        },
                        Err(e) => Err(e),
                    },
                    Err(e) => Err(e),
                }
            },
            Term::Ifte(c, m, n) => {
                match c.compile_onto(names, out) {
                    Ok(()) => {
                        let mut yes = Code::new();
                        match m.compile_onto(names, &mut yes) {
                            Ok(()) => {
                                let mut no = Code::new();
                                match n.compile_onto(names, &mut no) {
                                    Ok(()) => emit(out, CMD::IFTE(yes, no)),
                                    Err(e) => Err(e),
                                }
                            },
                            Err(e) => Err(e),
                        }
                    },
                    Err(e) => Err(e),
                }
            },
        }
    }
}

/// Places one instruction at the back of `out`, unless `out` is full.
fn emit(out: &mut Code, c: CMD) -> (r: Result<(), MachineFault>)
    ensures
        match r {
            Ok(()) => emitted(old(out)@, c@) == Ok::<Seq<Instr>, MachineFault>(final(out)@),
            Err(e) => emitted(old(out)@, c@) == Err::<Seq<Instr>, MachineFault>(e),
        },
{
    if out.len() < usize::MAX {
        out.push_back(c);
        Ok(())
    } else {
        Err(MachineFault::CapacityExceeded)
    }
}

/// The term behind a shared pointer.
pub open spec fn inner(r: Rc<Term>) -> Term {
    *r
}

/// Where a term compiles behind `acc`, it compiles behind any sequence that
/// is no longer, and to the same instructions: its code does not depend on
/// what stands in front of it.
pub proof fn lemma_code_is_placed(
    t: Term,
    names: Seq<Seq<char>>,
    acc: Seq<Instr>,
    other: Seq<Instr>,
) -> (tail: Seq<Instr>)
    requires
        t.compiled(names, acc) is Ok,
        other.len() <= acc.len(),
    ensures
        t.compiled(names, acc) == Ok::<Seq<Instr>, MachineFault>(acc + tail),
        t.compiled(names, other) == Ok::<Seq<Instr>, MachineFault>(other + tail),
        tail.len() > 0,
    decreases t,
{
    match t {
        Term::Int(i) => {
            let tail = seq![Instr::Int(i)];
            assert(acc.push(Instr::Int(i)) =~= acc + tail);
            assert(other.push(Instr::Int(i)) =~= other + tail);
            tail
        },
        Term::Bool(b) => {
            let tail = seq![Instr::Bool(b)];
            assert(acc.push(Instr::Bool(b)) =~= acc + tail);
            assert(other.push(Instr::Bool(b)) =~= other + tail);
            tail
        },
        Term::Var(x) => {
            let i = first_index(names, x@)->Some_0;
            let tail = seq![Instr::Access(i as usize)];
            assert(acc.push(Instr::Access(i as usize)) =~= acc + tail);
            assert(other.push(Instr::Access(i as usize)) =~= other + tail);
            tail
        },
        Term::Op1(op, m) => {
            let tm = lemma_code_is_placed(inner(m), names, acc, other);
            let tail = tm + seq![Instr::Unary(op)];
            assert((acc + tm).push(Instr::Unary(op)) =~= acc + tail);
            assert((other + tm).push(Instr::Unary(op)) =~= other + tail);
            tail
        },
        Term::Op2(op, m, n) => {
            let tm = lemma_code_is_placed(inner(m), names, acc, other);
            let tn = lemma_code_is_placed(inner(n), names, acc + tm, other + tm);
            let tail = tm + tn + seq![Instr::Binary(op)];
            assert((acc + tm + tn).push(Instr::Binary(op)) =~= acc + tail);
            assert((other + tm + tn).push(Instr::Binary(op)) =~= other + tail);
            tail
        },
        Term::Fun(f, x, m) => {
            let body = inner(m).compiled(seq![f@] + (seq![x@] + names), Seq::empty())->Ok_0;
            let whole = body.push(Instr::Return);
            let tail = seq![Instr::Closure(whole)];
            assert(acc.push(Instr::Closure(whole)) =~= acc + tail);
            assert(other.push(Instr::Closure(whole)) =~= other + tail);
            tail
        },
        Term::App(m, n) => {
            let tm = lemma_code_is_placed(inner(m), names, acc, other);
            let tn = lemma_code_is_placed(inner(n), names, acc + tm, other + tm);
            let tail = tm + tn + seq![Instr::Apply];
            assert((acc + tm + tn).push(Instr::Apply) =~= acc + tail);
            assert((other + tm + tn).push(Instr::Apply) =~= other + tail);
            tail
        },
        Term::LetIn(x, m, n) => {
            let tm = lemma_code_is_placed(inner(m), names, acc, other);
            let a = (acc + tm).push(Instr::Let);
            let o = (other + tm).push(Instr::Let);
            let tn = lemma_code_is_placed(inner(n), seq![x@] + names, a, o);
            let tail = tm + seq![Instr::Let] + tn + seq![Instr::EndLet];
            assert((a + tn).push(Instr::EndLet) =~= acc + tail);
            assert((o + tn).push(Instr::EndLet) =~= other + tail);
            tail
        },
        Term::Ifte(c, m, n) => {
            let tc = lemma_code_is_placed(inner(c), names, acc, other);
            let yes = inner(m).compiled(names, Seq::empty())->Ok_0;
            let no = inner(n).compiled(names, Seq::empty())->Ok_0;
            let tail = tc + seq![Instr::Ifte(yes, no)];
            assert((acc + tc).push(Instr::Ifte(yes, no)) =~= acc + tail);
            assert((other + tc).push(Instr::Ifte(yes, no)) =~= other + tail);
            tail
        },
    }
}

/// The code of a term placed behind `acc` is `acc` followed by the code of
/// the term on its own.
pub proof fn lemma_code_behind(t: Term, names: Seq<Seq<char>>, acc: Seq<Instr>)
    requires
        t.compiled(names, acc) is Ok,
    ensures
        t.compiled(names, Seq::empty()) is Ok,
        t.compiled(names, acc) == Ok::<Seq<Instr>, MachineFault>(acc + t.code(names)),
{
    let tail = lemma_code_is_placed(t, names, acc, Seq::empty());
    assert(Seq::<Instr>::empty() + tail =~= tail);
}

/// The code of each form of term, in terms of the code of its parts:
/// operands left to right and then the operator; a function's body under its
/// own name and its parameter, closed by a return and held in one closure
/// instruction; a binding's value, the scope's opening, the body under the
/// new name, the scope's end; a condition and then one instruction that
/// holds both branches.
pub proof fn lemma_code_shape(t: Term, names: Seq<Seq<char>>)
    requires
        t.compiled(names, Seq::empty()) is Ok,
    ensures
        match t {
            Term::Int(i) => t.code(names) == seq![Instr::Int(i)],
            Term::Bool(b) => t.code(names) == seq![Instr::Bool(b)],
            Term::Var(x) => first_index(names, x@) is Some && t.code(names) == seq![
                Instr::Access(first_index(names, x@)->Some_0 as usize),
            ],
            Term::Op1(op, m) => t.code(names) == m.code(names) + seq![Instr::Unary(op)],
            Term::Op2(op, m, n) => t.code(names) == m.code(names) + n.code(names) + seq![
                Instr::Binary(op),
            ],
            Term::Fun(f, x, m) => t.code(names) == seq![
                Instr::Closure(m.code(seq![f@] + (seq![x@] + names)) + seq![Instr::Return]),
            ],
            Term::App(m, n) => t.code(names) == m.code(names) + n.code(names) + seq![Instr::Apply],
            Term::LetIn(x, m, n) => t.code(names) == m.code(names) + seq![Instr::Let] + n.code(
                seq![x@] + names,
            ) + seq![Instr::EndLet],
            Term::Ifte(c, m, n) => t.code(names) == c.code(names) + seq![
                Instr::Ifte(m.code(names), n.code(names)),
            ],
        },
{
    let none = Seq::<Instr>::empty();
    match t {
        Term::Int(i) => {
            assert(none.push(Instr::Int(i)) =~= seq![Instr::Int(i)]);
        },
        Term::Bool(b) => {
            assert(none.push(Instr::Bool(b)) =~= seq![Instr::Bool(b)]);
        },
        Term::Var(x) => {
            let a = Instr::Access(first_index(names, x@)->Some_0 as usize);
            assert(none.push(a) =~= seq![a]);
        },
        Term::Op1(op, m) => {
            let cm = inner(m).code(names);
            assert(cm.push(Instr::Unary(op)) =~= cm + seq![Instr::Unary(op)]);
        },
        Term::Op2(op, m, n) => {
            let cm = inner(m).code(names);
            lemma_code_behind(inner(n), names, cm);
            let cn = inner(n).code(names);
            assert((cm + cn).push(Instr::Binary(op)) =~= cm + cn + seq![Instr::Binary(op)]);
        },
        Term::Fun(f, x, m) => {
            let cb = inner(m).code(seq![f@] + (seq![x@] + names));
            assert(cb.push(Instr::Return) =~= cb + seq![Instr::Return]);
            let c = Instr::Closure(cb.push(Instr::Return));
            assert(none.push(c) =~= seq![c]);
        },
        Term::App(m, n) => {
            let cm = inner(m).code(names);
            lemma_code_behind(inner(n), names, cm);
            let cn = inner(n).code(names);
            assert((cm + cn).push(Instr::Apply) =~= cm + cn + seq![Instr::Apply]);
        },
        Term::LetIn(x, m, n) => {
            let cm = inner(m).code(names);
            let names2 = seq![x@] + names;
            lemma_code_behind(inner(n), names2, cm.push(Instr::Let));
            let cn = inner(n).code(names2);
            assert((cm.push(Instr::Let) + cn).push(Instr::EndLet) =~= cm + seq![Instr::Let] + cn
                + seq![Instr::EndLet]);
        },
        Term::Ifte(c, m, n) => {
            let cc = inner(c).code(names);
            let br = Instr::Ifte(inner(m).code(names), inner(n).code(names));
            assert(cc.push(br) =~= cc + seq![br]);
        },
    }
}

} // verus!
