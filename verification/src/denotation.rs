//! A reference evaluator that walks a term under named bindings, and the
//! proof that the compiled code run by the machine agrees with it.

use crate::ast::{Op1, Op2, Term};
use crate::code::Instr;
use crate::compile::{emitted, inner, lemma_code_behind};
use crate::laws::{lemma_run_one, lemma_run_split, lemma_run_stable};
use crate::machine::{binary, reported, unary, State, Step};
use crate::names::{first_index, lemma_first_index};
use crate::value::{MachineFault, Val, Value};
use vstd::prelude::*;

verus! {

/// A value of the reference evaluator. A function keeps its two names, its
/// body, and the names and values that were in scope where it was written.
pub enum Denoted {
    Int(i32),
    Bool(bool),
    Fun(Seq<char>, Seq<char>, Term, Seq<Seq<char>>, Seq<Denoted>),
}

/// An operator's result as a value of the reference evaluator; a fault is no
/// value.
pub open spec fn lifted(r: Result<Val, MachineFault>) -> Option<Denoted> {
    match r {
        Ok(Val::Int(i)) => Some(Denoted::Int(i)),
        Ok(Val::Bool(b)) => Some(Denoted::Bool(b)),
        _ => None,
    }
}

/// The code of a function body under the names of its definition, closed by
/// the return instruction.
pub open spec fn closure_code(f: Seq<char>, x: Seq<char>, body: Term, names: Seq<Seq<char>>)
    -> Result<Seq<Instr>, MachineFault> {
    if names.len() + 2 > usize::MAX {
        Err(MachineFault::CapacityExceeded)
    } else {
        match body.compiled(seq![f] + (seq![x] + names), Seq::empty()) {
            Ok(b) => emitted(b, Instr::Return),
            Err(e) => Err(e),
        }
    }
}

impl Denoted {
    /// An integer or a boolean as an operand.
    pub open spec fn base(self) -> Option<Val> {
        match self {
            Denoted::Int(i) => Some(Val::Int(i)),
            Denoted::Bool(b) => Some(Val::Bool(b)),
            _ => None,
        }
    }

    /// A machine value stands for this value: the same integer or boolean,
    /// or a closure whose code is this function's compiled body and whose
    /// environment stands, entry by entry, for this function's bindings.
    pub open spec fn agrees(self, v: Val) -> bool
        decreases self,
    {
        match self {
            Denoted::Int(i) => v == Val::Int(i),
            Denoted::Bool(b) => v == Val::Bool(b),
            Denoted::Fun(f, x, body, names, vals) => match v {
                Val::Clo(code, env) => closure_code(f, x, body, names) == Ok::<
                    Seq<Instr>,
                    MachineFault,
                >(code) && names.len() == vals.len() && env.len() == vals.len() && forall|i: int|
                    0 <= i < vals.len() ==> (#[trigger] vals[i]).agrees(env[i]),
                _ => false,
            },
        }
    }
}

/// A machine environment stands for the bindings of the reference evaluator.
pub open spec fn env_agrees(names: Seq<Seq<char>>, vals: Seq<Denoted>, env: Seq<Val>) -> bool {
    names.len() == vals.len() && env.len() == vals.len() && names.len() <= usize::MAX
        && forall|i: int| 0 <= i < vals.len() ==> (#[trigger] vals[i]).agrees(env[i])
}

/// A unary operator in the reference evaluator.
pub open spec fn denoted_unary(op: Op1, d: Denoted) -> Option<Denoted> {
    match d.base() {
        Some(v) => lifted(unary(op, v)),
        None => None,
    }
}

/// A binary operator in the reference evaluator.
pub open spec fn denoted_binary(op: Op2, l: Denoted, r: Denoted) -> Option<Denoted> {
    match (l.base(), r.base()) {
        (Some(a), Some(b)) => lifted(binary(op, a, b)),
        _ => None,
    }
}

impl Term {
    /// The value of this term under the given bindings (innermost first), as
    /// the reference evaluator finds it with at most `fuel` nested calls.
    /// `None` stands for every failure: an unbound name, an operand of the
    /// wrong variant, a division by zero, an overflow, or too little fuel.
    pub open spec fn eval(self, names: Seq<Seq<char>>, vals: Seq<Denoted>, fuel: nat) -> Option<
        Denoted,
    >
        decreases fuel, self,
    {
        match self {
            Term::Int(i) => Some(Denoted::Int(i)),
            Term::Bool(b) => Some(Denoted::Bool(b)),
            Term::Var(x) => match first_index(names, x@) {
                Some(i) => if i < vals.len() {
                    Some(vals[i])
                } else {
                    None
                },
                None => None,
            },
            Term::Op1(op, m) => match m.eval(names, vals, fuel) {
                Some(d) => denoted_unary(op, d),
                None => None,
            },
            Term::Op2(op, m, n) => match m.eval(names, vals, fuel) {
                Some(l) => match n.eval(names, vals, fuel) {
                    Some(r) => denoted_binary(op, l, r),
                    None => None,
                },
                None => None,
            },
            Term::Fun(f, x, m) => Some(Denoted::Fun(f@, x@, *m, names, vals)),
            Term::App(m, n) => match m.eval(names, vals, fuel) {
                Some(Denoted::Fun(f, x, body, cn, cv)) => match n.eval(names, vals, fuel) {
                    Some(a) => if fuel == 0 {
                        None
                    } else {
                        body.eval(
                            seq![f] + (seq![x] + cn),
                            seq![Denoted::Fun(f, x, body, cn, cv)] + (seq![a] + cv),
                            (fuel - 1) as nat,
                        )
                    },
                    None => None,
                },
                _ => None,
            },
            Term::LetIn(x, m, n) => match m.eval(names, vals, fuel) {
                Some(d) => n.eval(seq![x@] + names, seq![d] + vals, fuel),
                None => None,
            },
            Term::Ifte(c, m, n) => match c.eval(names, vals, fuel) {
                Some(Denoted::Bool(b)) => if b {
                    m.eval(names, vals, fuel)
                } else {
                    n.eval(names, vals, fuel)
                },
                _ => None,
            },
        }
    }
}

/// The front of a sequence that was built by putting an element in front.
proof fn lemma_front<A>(a: A, s: Seq<A>)
    ensures
        (seq![a] + s).len() == s.len() + 1,
        (seq![a] + s)[0] == a,
        (seq![a] + s).drop_first() == s,
{
    assert((seq![a] + s).drop_first() =~= s);
}

/// The machine has stopped because a sequence grew past what it can hold.
pub open spec fn overflows(s: State, n: nat) -> bool {
    s.run(n) == Step::Fault(MachineFault::CapacityExceeded)
}

/// After `n` transitions from `s` the machine has pushed `v`, which stands
/// for `d`, and is left with `rest` to run; or it has stopped because a
/// sequence grew past what it can hold.
pub open spec fn delivers(s: State, n: nat, d: Denoted, v: Val, rest: Seq<Instr>) -> bool {
    overflows(s, n) || (d.agrees(v) && s.run(n) == Step::Next(
        State { stack: seq![v] + s.stack, env: s.env, code: rest },
    ))
}

/// What is delivered from a state that a run gets to, with the same stack
/// and environment, is delivered by the longer run.
proof fn lemma_delivers_after(
    s: State,
    k: nat,
    mid: State,
    n: nat,
    d: Denoted,
    v: Val,
    rest: Seq<Instr>,
)
    requires
        overflows(s, k) || s.run(k) == Step::Next(mid),
        mid.stack == s.stack,
        mid.env == s.env,
        delivers(mid, n, d, v, rest),
    ensures
        delivers(s, k + n, d, v, rest),
{
    lemma_run_split(s, k, n);
}

/// A literal, a variable or a function pushes its value in one transition.
proof fn lemma_leaf_case(
    t: Term,
    names: Seq<Seq<char>>,
    vals: Seq<Denoted>,
    fuel: nat,
    env: Seq<Val>,
    stack: Seq<Val>,
    rest: Seq<Instr>,
) -> (v: Val)
    requires
        t is Int || t is Bool || t is Var || t is Fun,
        t.eval(names, vals, fuel) is Some,
        t.compiled(names, Seq::empty()) is Ok,
        env_agrees(names, vals, env),
    ensures
        delivers(
            State { stack, env, code: t.code(names) + rest },
            1,
            t.eval(names, vals, fuel)->Some_0,
            v,
            rest,
        ),
{
    let s = State { stack, env, code: t.code(names) + rest };
    lemma_run_one(s);
    match t {
        Term::Int(i) => {
            assert(s.code =~= seq![Instr::Int(i)] + rest);
            lemma_front(Instr::Int(i), rest);
            Val::Int(i)
        },
        Term::Bool(b) => {
            assert(s.code =~= seq![Instr::Bool(b)] + rest);
            lemma_front(Instr::Bool(b), rest);
            Val::Bool(b)
        },
        Term::Var(x) => {
            lemma_first_index(names, x@);
            let i = first_index(names, x@)->Some_0;
            assert(s.code =~= seq![Instr::Access(i as usize)] + rest);
            lemma_front(Instr::Access(i as usize), rest);
            assert(vals[i].agrees(env[i]));
            env[i]
        },
        Term::Fun(f, x, m) => {
            let body = inner(m);
            let whole = body.compiled(seq![f@] + (seq![x@] + names), Seq::empty())->Ok_0.push(
                Instr::Return,
            );
            assert(s.code =~= seq![Instr::Closure(whole)] + rest);
            lemma_front(Instr::Closure(whole), rest);
            let v = Val::Clo(whole, env);
            assert(closure_code(f@, x@, body, names) == Ok::<Seq<Instr>, MachineFault>(whole));
            assert(Denoted::Fun(f@, x@, body, names, vals).agrees(v));
            v
        },
        _ => Val::Int(0),
    }
}

/// A unary operator replaces its operand, once delivered, by its result.
proof fn lemma_unary_case(
    op: Op1,
    s: State,
    cm: Seq<Instr>,
    rest: Seq<Instr>,
    n1: nat,
    d1: Denoted,
    v1: Val,
)
    requires
        s.code == cm + (seq![Instr::Unary(op)] + rest),
        delivers(s, n1, d1, v1, seq![Instr::Unary(op)] + rest),
        denoted_unary(op, d1) is Some,
    ensures
        delivers(s, n1 + 1, denoted_unary(op, d1)->Some_0, unary(op, v1)->Ok_0, rest),
{
    let u = Instr::Unary(op);
    lemma_run_split(s, n1, 1);
    if !overflows(s, n1) {
        let mid = State { stack: seq![v1] + s.stack, env: s.env, code: seq![u] + rest };
        lemma_front(u, rest);
        lemma_front(v1, s.stack);
        lemma_run_one(mid);
    }
}

/// A binary operator replaces its operands, delivered left then right, by
/// its result.
proof fn lemma_binary_case(
    op: Op2,
    s: State,
    cn: Seq<Instr>,
    rest: Seq<Instr>,
    n1: nat,
    d1: Denoted,
    v1: Val,
    n2: nat,
    d2: Denoted,
    v2: Val,
)
    requires
        delivers(s, n1, d1, v1, cn + (seq![Instr::Binary(op)] + rest)),
        delivers(
            State {
                stack: seq![v1] + s.stack,
                env: s.env,
                code: cn + (seq![Instr::Binary(op)] + rest),
            },
            n2,
            d2,
            v2,
            seq![Instr::Binary(op)] + rest,
        ),
        denoted_binary(op, d1, d2) is Some,
    ensures
        delivers(
            s,
            n1 + n2 + 1,
            denoted_binary(op, d1, d2)->Some_0,
            binary(op, v1, v2)->Ok_0,
            rest,
        ),
{
    let o = Instr::Binary(op);
    let mid1 = State { stack: seq![v1] + s.stack, env: s.env, code: cn + (seq![o] + rest) };
    lemma_run_split(s, n1, n2);
    lemma_run_split(s, n1 + n2, 1);
    if !overflows(s, n1) && !overflows(mid1, n2) {
        let mid2 = State {
            stack: seq![v2] + (seq![v1] + s.stack),
            env: s.env,
            code: seq![o] + rest,
        };
        lemma_front(o, rest);
        lemma_front(v2, seq![v1] + s.stack);
        lemma_front(v1, s.stack);
        lemma_run_one(mid2);
        assert(mid2.stack[1] == v1);
    }
}

/// The bindings in which a function body runs stand entry by entry for the
/// evaluator's: the function itself, its argument, then what it captured.
proof fn lemma_call_env(d1: Denoted, v1: Val, d2: Denoted, v2: Val)
    requires
        d1 is Fun,
        d1.agrees(v1),
        d2.agrees(v2),
    ensures
        v1 is Clo,
        closure_code(d1->Fun_0, d1->Fun_1, d1->Fun_2, d1->Fun_3) == Ok::<
            Seq<Instr>,
            MachineFault,
        >(v1->Clo_0),
        env_agrees(
            seq![d1->Fun_0] + (seq![d1->Fun_1] + d1->Fun_3),
            seq![d1] + (seq![d2] + d1->Fun_4),
            seq![v1] + (seq![v2] + v1->Clo_1),
        ),
{
    let cv = d1->Fun_4;
    let cenv = v1->Clo_1;
    let vals2 = seq![d1] + (seq![d2] + cv);
    let env2 = seq![v1] + (seq![v2] + cenv);
    assert forall|i: int| 0 <= i < vals2.len() implies (#[trigger] vals2[i]).agrees(env2[i]) by {
        if i >= 2 {
            assert(vals2[i] == cv[i - 2]);
            assert(env2[i] == cenv[i - 2]);
            assert(cv[i - 2].agrees(cenv[i - 2]));
        }
    }
}

/// A call, once the function and the argument are delivered, saves the
/// caller's code and environment and enters the function's body.
proof fn lemma_call_case(
    s: State,
    cn: Seq<Instr>,
    rest: Seq<Instr>,
    n1: nat,
    d1: Denoted,
    v1: Val,
    n2: nat,
    d2: Denoted,
    v2: Val,
)
    requires
        delivers(s, n1, d1, v1, cn + (seq![Instr::Apply] + rest)),
        delivers(
            State { stack: seq![v1] + s.stack, env: s.env, code: cn + (seq![Instr::Apply] + rest) },
            n2,
            d2,
            v2,
            seq![Instr::Apply] + rest,
        ),
        d1 is Fun,
    ensures
        overflows(s, n1 + n2 + 1) || (d1.agrees(v1) && d2.agrees(v2) && v1 is Clo && s.run(
            n1 + n2 + 1,
        ) == Step::Next(
            State {
                stack: seq![Val::Clo(rest, s.env)] + s.stack,
                env: seq![v1] + (seq![v2] + v1->Clo_1),
                code: v1->Clo_0,
            },
        )),
{
    let ap = Instr::Apply;
    let mid1 = State { stack: seq![v1] + s.stack, env: s.env, code: cn + (seq![ap] + rest) };
    lemma_run_split(s, n1, n2);
    lemma_run_split(s, n1 + n2, 1);
    if !overflows(s, n1) && !overflows(mid1, n2) {
        let mid2 = State {
            stack: seq![v2] + (seq![v1] + s.stack),
            env: s.env,
            code: seq![ap] + rest,
        };
        lemma_front(ap, rest);
        lemma_front(v2, seq![v1] + s.stack);
        lemma_front(v1, s.stack);
        lemma_run_one(mid2);
        assert(mid2.stack[1] == v1);
        assert(mid2.stack[0] == v2);
    }
}

/// A return, once the body's value is delivered, restores the caller's code
/// and environment under that value.
proof fn lemma_return_case(
    s: State,
    k: nat,
    env2: Seq<Val>,
    body: Seq<Instr>,
    rest: Seq<Instr>,
    n3: nat,
    d3: Denoted,
    v3: Val,
)
    requires
        overflows(s, k) || s.run(k) == Step::Next(
            State {
                stack: seq![Val::Clo(rest, s.env)] + s.stack,
                env: env2,
                code: body + seq![Instr::Return],
            },
        ),
        delivers(
            State {
                stack: seq![Val::Clo(rest, s.env)] + s.stack,
                env: env2,
                code: body + seq![Instr::Return],
            },
            n3,
            d3,
            v3,
            seq![Instr::Return],
        ),
    ensures
        delivers(s, k + n3 + 1, d3, v3, rest),
{
    let stack2 = seq![Val::Clo(rest, s.env)] + s.stack;
    let ret = seq![Instr::Return];
    let mid3 = State { stack: stack2, env: env2, code: body + ret };
    lemma_run_split(s, k, n3);
    lemma_run_split(s, k + n3, 1);
    if !overflows(s, k) && !overflows(mid3, n3) {
        let mid4 = State { stack: seq![v3] + stack2, env: env2, code: ret };
        assert(ret =~= seq![Instr::Return] + Seq::<Instr>::empty());
        lemma_front(Instr::Return, Seq::<Instr>::empty());
        lemma_front(v3, stack2);
        lemma_front(Val::Clo(rest, s.env), s.stack);
        lemma_run_one(mid4);
        assert(mid4.stack[1] == Val::Clo(rest, s.env));
    }
}

/// A binding, once its value is delivered, puts that value in front of the
/// environment.
proof fn lemma_bind_case(
    s: State,
    k1: Seq<Instr>,
    n1: nat,
    d1: Denoted,
    v1: Val,
    names: Seq<Seq<char>>,
    vals: Seq<Denoted>,
    x: Seq<char>,
)
    requires
        delivers(s, n1, d1, v1, seq![Instr::Let] + k1),
        env_agrees(names, vals, s.env),
        names.len() + 1 <= usize::MAX,
    ensures
        overflows(s, n1 + 1) || (s.run(n1 + 1) == Step::Next(
            State { stack: s.stack, env: seq![v1] + s.env, code: k1 },
        ) && env_agrees(seq![x] + names, seq![d1] + vals, seq![v1] + s.env)),
{
    lemma_run_split(s, n1, 1);
    if !overflows(s, n1) {
        let mid1 = State { stack: seq![v1] + s.stack, env: s.env, code: seq![Instr::Let] + k1 };
        lemma_front(Instr::Let, k1);
        lemma_front(v1, s.stack);
        lemma_run_one(mid1);
        let vals2 = seq![d1] + vals;
        let env2 = seq![v1] + s.env;
        assert forall|i: int| 0 <= i < vals2.len() implies (#[trigger] vals2[i]).agrees(
            env2[i],
        ) by {
            if i >= 1 {
                assert(vals2[i] == vals[i - 1]);
                assert(env2[i] == s.env[i - 1]);
                assert(vals[i - 1].agrees(s.env[i - 1]));
            }
        }
    }
}

/// The end of a binding's scope, once the body's value is delivered, takes
/// the binding off the environment again.
proof fn lemma_unbind_case(
    s: State,
    k: nat,
    v1: Val,
    cn: Seq<Instr>,
    rest: Seq<Instr>,
    n2: nat,
    d2: Denoted,
    v2: Val,
)
    requires
        overflows(s, k) || s.run(k) == Step::Next(
            State {
                stack: s.stack,
                env: seq![v1] + s.env,
                code: cn + (seq![Instr::EndLet] + rest),
            },
        ),
        delivers(
            State {
                stack: s.stack,
                env: seq![v1] + s.env,
                code: cn + (seq![Instr::EndLet] + rest),
            },
            n2,
            d2,
            v2,
            seq![Instr::EndLet] + rest,
        ),
    ensures
        delivers(s, k + n2 + 1, d2, v2, rest),
{
    let env2 = seq![v1] + s.env;
    let mid2 = State { stack: s.stack, env: env2, code: cn + (seq![Instr::EndLet] + rest) };
    lemma_run_split(s, k, n2);
    lemma_run_split(s, k + n2, 1);
    if !overflows(s, k) && !overflows(mid2, n2) {
        let mid3 = State {
            stack: seq![v2] + s.stack,
            env: env2,
            code: seq![Instr::EndLet] + rest,
        };
        lemma_front(Instr::EndLet, rest);
        lemma_front(v1, s.env);
        lemma_run_one(mid3);
    }
}

/// A conditional, once its condition is delivered, goes on with the code of
/// the branch that the condition selects.
proof fn lemma_branch_case(
    s: State,
    yes: Seq<Instr>,
    no: Seq<Instr>,
    rest: Seq<Instr>,
    n1: nat,
    d1: Denoted,
    v1: Val,
)
    requires
        delivers(s, n1, d1, v1, seq![Instr::Ifte(yes, no)] + rest),
        d1 is Bool,
    ensures
        overflows(s, n1 + 1) || s.run(n1 + 1) == Step::Next(
            State {
                stack: s.stack,
                env: s.env,
                code: (if d1->Bool_0 {
                    yes
                } else {
                    no
                }) + rest,
            },
        ),
{
    let br = Instr::Ifte(yes, no);
    lemma_run_split(s, n1, 1);
    if !overflows(s, n1) {
        let mid1 = State { stack: seq![v1] + s.stack, env: s.env, code: seq![br] + rest };
        lemma_front(br, rest);
        lemma_front(v1, s.stack);
        lemma_run_one(mid1);
    }
}

/// Where the reference evaluator gives a term a value, the machine, started
/// on the term's code in an environment that stands for the evaluator's
/// bindings, pushes a value that stands for the evaluator's and goes on with
/// the code that followed, the rest of the stack and the environment as
/// they were.
pub proof fn lemma_simulate(
    t: Term,
    names: Seq<Seq<char>>,
    vals: Seq<Denoted>,
    fuel: nat,
    env: Seq<Val>,
    stack: Seq<Val>,
    rest: Seq<Instr>,
) -> (r: (nat, Val))
    requires
        t.eval(names, vals, fuel) is Some,
        t.compiled(names, Seq::empty()) is Ok,
        env_agrees(names, vals, env),
    ensures
        delivers(
            State { stack, env, code: t.code(names) + rest },
            r.0,
            t.eval(names, vals, fuel)->Some_0,
            r.1,
            rest,
        ),
    decreases fuel, t,
{
    let s = State { stack, env, code: t.code(names) + rest };
    match t {
        Term::Op1(op, m) => {
            let m = inner(m);
            let u = Instr::Unary(op);
            assert(s.code =~= m.code(names) + (seq![u] + rest));
            let (n1, v1) = lemma_simulate(m, names, vals, fuel, env, stack, seq![u] + rest);
            let d1 = m.eval(names, vals, fuel)->Some_0;
            lemma_unary_case(op, s, m.code(names), rest, n1, d1, v1);
            (n1 + 1, unary(op, v1)->Ok_0)
        },
        Term::Op2(op, m, n) => {
            let m = inner(m);
            let n = inner(n);
            let o = Instr::Binary(op);
            lemma_code_behind(n, names, m.code(names));
            let k1 = n.code(names) + (seq![o] + rest);
            assert(s.code =~= m.code(names) + k1);
            let (n1, v1) = lemma_simulate(m, names, vals, fuel, env, stack, k1);
            let (n2, v2) = lemma_simulate(
                n,
                names,
                vals,
                fuel,
                env,
                seq![v1] + stack,
                seq![o] + rest,
            );
            let d1 = m.eval(names, vals, fuel)->Some_0;
            let d2 = n.eval(names, vals, fuel)->Some_0;
            lemma_binary_case(op, s, n.code(names), rest, n1, d1, v1, n2, d2, v2);
            (n1 + n2 + 1, binary(op, v1, v2)->Ok_0)
        },
        Term::App(m, n) => {
            let m = inner(m);
            let n = inner(n);
            let ap = Instr::Apply;
            lemma_code_behind(n, names, m.code(names));
            let k1 = n.code(names) + (seq![ap] + rest);
            assert(s.code =~= m.code(names) + k1);
            let (n1, v1) = lemma_simulate(m, names, vals, fuel, env, stack, k1);
            let (n2, v2) = lemma_simulate(
                n,
                names,
                vals,
                fuel,
                env,
                seq![v1] + stack,
                seq![ap] + rest,
            );
            let d1 = m.eval(names, vals, fuel)->Some_0;
            let d2 = n.eval(names, vals, fuel)->Some_0;
            lemma_call_case(s, n.code(names), rest, n1, d1, v1, n2, d2, v2);
            let k = n1 + n2 + 1;
            if overflows(s, k) {
                (k, v1)
            } else {
                lemma_call_env(d1, v1, d2, v2);
                let body = d1->Fun_2;
                let names2 = seq![d1->Fun_0] + (seq![d1->Fun_1] + d1->Fun_3);
                let vals2 = seq![d1] + (seq![d2] + d1->Fun_4);
                let env2 = seq![v1] + (seq![v2] + v1->Clo_1);
                let stack2 = seq![Val::Clo(rest, env)] + stack;
                let ret = seq![Instr::Return];
                assert(v1->Clo_0 =~= body.code(names2) + ret);
                let (n3, v3) = lemma_simulate(
                    body,
                    names2,
                    vals2,
                    (fuel - 1) as nat,
                    env2,
                    stack2,
                    ret,
                );
                let d3 = body.eval(names2, vals2, (fuel - 1) as nat)->Some_0;
                lemma_return_case(s, k, env2, body.code(names2), rest, n3, d3, v3);
                (k + n3 + 1, v3)
            }
        },
        Term::LetIn(x, m, n) => {
            let m = inner(m);
            let n = inner(n);
            let names2 = seq![x@] + names;
            lemma_code_behind(n, names2, m.code(names).push(Instr::Let));
            let k2 = seq![Instr::EndLet] + rest;
            let k1 = n.code(names2) + k2;
            assert(s.code =~= m.code(names) + (seq![Instr::Let] + k1));
            let (n1, v1) = lemma_simulate(
                m,
                names,
                vals,
                fuel,
                env,
                stack,
                seq![Instr::Let] + k1,
            );
            let d1 = m.eval(names, vals, fuel)->Some_0;
            lemma_bind_case(s, k1, n1, d1, v1, names, vals, x@);
            if overflows(s, n1 + 1) {
                (n1 + 1, v1)
            } else {
                let vals2 = seq![d1] + vals;
                let env2 = seq![v1] + env;
                let (n2, v2) = lemma_simulate(n, names2, vals2, fuel, env2, stack, k2);
                let d2 = n.eval(names2, vals2, fuel)->Some_0;
                lemma_unbind_case(s, n1 + 1, v1, n.code(names2), rest, n2, d2, v2);
                (n1 + 1 + n2 + 1, v2)
            }
        },
        Term::Ifte(c, m, n) => {
            let c = inner(c);
            let m = inner(m);
            let n = inner(n);
            let yes = m.code(names);
            let no = n.code(names);
            let br = Instr::Ifte(yes, no);
            assert(s.code =~= c.code(names) + (seq![br] + rest));
            let (n1, v1) = lemma_simulate(c, names, vals, fuel, env, stack, seq![br] + rest);
            let d1 = c.eval(names, vals, fuel)->Some_0;
            lemma_branch_case(s, yes, no, rest, n1, d1, v1);
            let chosen = if d1->Bool_0 {
                m
            } else {
                n
            };
            let (n2, v2) = lemma_simulate(chosen, names, vals, fuel, env, stack, rest);
            let d2 = chosen.eval(names, vals, fuel)->Some_0;
            let mid = State { stack, env, code: chosen.code(names) + rest };
            lemma_delivers_after(s, n1 + 1, mid, n2, d2, v2, rest);
            (n1 + 1 + n2, v2)
        },
        _ => {
            let v = lemma_leaf_case(t, names, vals, fuel, env, stack, rest);
            (1, v)
        },
    }
}

/// Agreement with the reference evaluator: where the reference evaluator
/// gives a closed term a value, a long enough run of the term's code stops
/// on a value that stands for it (the same integer or boolean, or a closure
/// of the same function), unless a sequence grows past what the machine can
/// hold.
pub proof fn lemma_machine_agrees_with_reference(t: Term, fuel: nat) -> (r: (nat, Val))
    requires
        t.eval(Seq::empty(), Seq::empty(), fuel) is Some,
        t.compiled(Seq::empty(), Seq::empty()) is Ok,
    ensures
        ({
            let d = t.eval(Seq::empty(), Seq::empty(), fuel)->Some_0;
            let start = State::initial(t.code(Seq::empty()));
            overflows(start, r.0) || (start.run(r.0) == Step::Done(r.1) && d.agrees(r.1) && (
            d.base() is Some ==> d.base() == Some(r.1)))
        }),
{
    let none = Seq::<Instr>::empty();
    let code = t.code(Seq::empty());
    let start = State::initial(code);
    assert(code + none =~= code);
    let (n, v) = lemma_simulate(
        t,
        Seq::empty(),
        Seq::empty(),
        fuel,
        Seq::empty(),
        Seq::empty(),
        none,
    );
    lemma_run_split(start, n, 1);
    if !overflows(start, n) {
        let last = State { stack: seq![v] + Seq::<Val>::empty(), env: Seq::empty(), code: none };
        lemma_run_one(last);
    }
    (n + 1, v)
}

/// What a bounded run of a closed term's code reports, where the reference
/// evaluator gives the term a value: a value that stands for the
/// evaluator's, or that the fuel ran out, or that a sequence grew past what
/// the machine can hold; never another fault, and never another value.
pub proof fn lemma_report_agrees_with_reference(
    t: Term,
    fuel: nat,
    budget: nat,
    r: Result<Value, MachineFault>,
)
    requires
        t.eval(Seq::empty(), Seq::empty(), fuel) is Some,
        t.compiled(Seq::empty(), Seq::empty()) is Ok,
        reported(State::initial(t.code(Seq::empty())).run(budget), r),
    ensures
        r == Err::<Value, MachineFault>(MachineFault::OutOfFuel) || r == Err::<
            Value,
            MachineFault,
        >(MachineFault::CapacityExceeded) || (r is Ok && t.eval(
            Seq::empty(),
            Seq::empty(),
            fuel,
        )->Some_0.agrees(r->Ok_0@)),
{
    let start = State::initial(t.code(Seq::empty()));
    let (n, v) = lemma_machine_agrees_with_reference(t, fuel);
    if !(start.run(budget) is Next) {
        if budget <= n {
            lemma_run_stable(start, budget, n);
        } else {
            lemma_run_stable(start, n, budget);
        }
    }
}

} // verus!
