//! Laws of the compiler and the machine.

use crate::ast::{Op2, Term};
use crate::code::Instr;
use crate::compile::{inner, lemma_code_shape};
use crate::machine::{binary, reported, State, Step};
use crate::names::first_index;
use crate::value::{MachineFault, Val, Value};
use vstd::prelude::*;

verus! {

/// One unit of fuel makes one transition.
pub proof fn lemma_run_one(s: State)
    ensures
        s.run(1) == s.step(),
{
    reveal_with_fuel(State::run, 2);
}

/// Once a run has stopped, more fuel changes nothing: every longer run stops
/// on the same value or fault.
pub proof fn lemma_run_stable(s: State, n: nat, m: nat)
    requires
        n <= m,
        !(s.run(n) is Next),
    ensures
        s.run(m) == s.run(n),
    decreases n,
{
    if n > 0 {
        match s.step() {
            Step::Next(next) => {
                lemma_run_stable(next, (n - 1) as nat, (m - 1) as nat);
            },
            _ => {},
        }
    }
}

/// A run is the run of its first part followed by the run of what is left.
pub proof fn lemma_run_split(s: State, n: nat, m: nat)
    ensures
        s.run(n + m) == match s.run(n) {
            Step::Next(mid) => mid.run(m),
            stopped => stopped,
        },
    decreases n,
{
    if n > 0 {
        match s.step() {
            Step::Next(next) => {
                lemma_run_split(next, (n - 1) as nat, m);
                assert((n + m - 1) as nat == (n - 1) as nat + m);
            },
            _ => {},
        }
    }
}

/// Two runs of the same code from the empty state that both stop within
/// their fuel report the same value, or the same fault.
pub proof fn lemma_runs_agree(
    code: Seq<Instr>,
    fuel1: nat,
    fuel2: nat,
    r1: Result<Value, MachineFault>,
    r2: Result<Value, MachineFault>,
)
    requires
        reported(State::initial(code).run(fuel1), r1),
        reported(State::initial(code).run(fuel2), r2),
        !(State::initial(code).run(fuel1) is Next),
        !(State::initial(code).run(fuel2) is Next),
    ensures
        r1 is Ok <==> r2 is Ok,
        r1 is Ok ==> r1->Ok_0@ == r2->Ok_0@,
        r1 is Err ==> r1->Err_0 == r2->Err_0,
{
    let s = State::initial(code);
    if fuel1 <= fuel2 {
        lemma_run_stable(s, fuel1, fuel2);
    } else {
        lemma_run_stable(s, fuel2, fuel1);
    }
}

/// Two runs of the same code from the empty state with the same fuel report
/// the same value, or the same fault.
pub proof fn lemma_run_repeatable(
    code: Seq<Instr>,
    fuel: nat,
    r1: Result<Value, MachineFault>,
    r2: Result<Value, MachineFault>,
)
    requires
        reported(State::initial(code).run(fuel), r1),
        reported(State::initial(code).run(fuel), r2),
    ensures
        r1 is Ok <==> r2 is Ok,
        r1 is Ok ==> r1->Ok_0@ == r2->Ok_0@,
        r1 is Err ==> r1->Err_0 == r2->Err_0,
{
}

/// The code of a binary operation is the code of its left operand, then
/// that of its right operand, then the operator, with nothing in between
/// that could skip the right operand: whatever the operator, `And` and `Or`
/// included, both operands are evaluated, the left one first.
pub proof fn lemma_both_operands_compiled(t: Term, names: Seq<Seq<char>>)
    requires
        t is Op2,
        t.compiled(names, Seq::empty()) is Ok,
    ensures
        t.code(names) == inner(t->Op2_1).code(names) + inner(t->Op2_2).code(names) + seq![
            Instr::Binary(t->Op2_0),
        ],
{
    lemma_code_shape(t, names);
}

/// `And` and `Or` inspect their right operand whatever the left one is: a
/// left operand that would settle the result does not hide a right operand
/// of the wrong variant.
pub proof fn lemma_no_short_circuit(l: bool, r: Val)
    ensures
        binary(Op2::And, Val::Bool(l), r) is Ok <==> r is Bool,
        binary(Op2::Or, Val::Bool(l), r) is Ok <==> r is Bool,
        r is Bool ==> binary(Op2::And, Val::Bool(l), r) == Ok::<Val, MachineFault>(
            Val::Bool(l && r->Bool_0),
        ),
        r is Bool ==> binary(Op2::Or, Val::Bool(l), r) == Ok::<Val, MachineFault>(
            Val::Bool(l || r->Bool_0),
        ),
{
}

/// A conditional continues with the instructions of exactly one branch, in
/// front of what was pending, and leaves the environment as it was.
pub proof fn lemma_branch_takes_one_side(
    b: bool,
    below: Seq<Val>,
    env: Seq<Val>,
    yes: Seq<Instr>,
    no: Seq<Instr>,
    rest: Seq<Instr>,
)
    requires
        (if b {
            yes
        } else {
            no
        }).len() + rest.len() <= usize::MAX,
    ensures
        (State {
            stack: seq![Val::Bool(b)] + below,
            env,
            code: seq![Instr::Ifte(yes, no)] + rest,
        }).step() == Step::Next(
            State {
                stack: below,
                env,
                code: (if b {
                    yes
                } else {
                    no
                }) + rest,
            },
        ),
{
    let code = seq![Instr::Ifte(yes, no)] + rest;
    let stack = seq![Val::Bool(b)] + below;
    assert(code.drop_first() =~= rest);
    assert(stack.drop_first() =~= below);
}

/// A name resolves to its innermost binding: a new binding of `x` takes
/// position 0, whatever was bound before, and moves every other name one
/// position outward; once the new binding is taken off again, every name
/// resolves as before.
pub proof fn lemma_innermost_binding_wins(names: Seq<Seq<char>>, x: Seq<char>, y: Seq<char>)
    ensures
        first_index(seq![x] + names, x) == Some(0int),
        y != x ==> first_index(seq![x] + names, y) == match first_index(names, y) {
            Some(i) => Some(i + 1),
            None => None,
        },
        (seq![x] + names).drop_first() == names,
{
    assert((seq![x] + names).drop_first() =~= names);
}

} // verus!
