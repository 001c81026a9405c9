//! The machine: an operand stack, an environment and the code still to run.

use crate::ast::{Op1, Op2, Term};
use crate::code::{Code, Instr, CMD};
use crate::names::empty_names;
use crate::value::{Kind, MachineFault, Operation, Val, Value, ValueList};
use vstd::prelude::*;

verus! {

/// The mathematical content of a machine: every sequence front first. The
/// front of the stack is its top; the front of the environment is the
/// innermost binding.
pub struct State {
    pub stack: Seq<Val>,
    pub env: Seq<Val>,
    pub code: Seq<Instr>,
}

/// What one transition, or a bounded run, leads to.
pub enum Step {
    /// The machine goes on from this state.
    Next(State),
    /// The code is used up and the stack holds this one value.
    Done(Val),
    /// The machine stopped on a fault.
    Fault(MachineFault),
}

/// The quotient of two integers, rounded toward zero.
pub open spec fn quotient(a: int, b: int) -> int
    recommends
        b != 0,
{
    if a >= 0 && b > 0 {
        a / b
    } else if a < 0 && b < 0 {
        (-a) / (-b)
    } else if a < 0 {
        -((-a) / b)
    } else {
        -(a / (-b))
    }
}

/// An integer as a value, where it lies in the range of `i32`.
pub open spec fn ranged(n: int) -> Result<Val, MachineFault> {
    if i32::MIN <= n <= i32::MAX {
        Ok(Val::Int(n as i32))
    } else {
        Err(MachineFault::ArithmeticOverflow)
    }
}

/// The result of a unary operator on an operand.
pub open spec fn unary(op: Op1, v: Val) -> Result<Val, MachineFault> {
    match (op, v) {
        (Op1::Neg, Val::Int(i)) => ranged(-i),
        (Op1::Neg, _) => Err(
            MachineFault::TypeMismatch {
                op: Operation::Unary(op),
                expected: Kind::Int,
                actual: v.kind(),
            },
        ),
        (Op1::Not, Val::Bool(b)) => Ok(Val::Bool(!b)),
        (Op1::Not, _) => Err(
            MachineFault::TypeMismatch {
                op: Operation::Unary(op),
                expected: Kind::Bool,
                actual: v.kind(),
            },
        ),
    }
}

/// The variant that a binary operator wants of both operands.
pub open spec fn operand_kind(op: Op2) -> Kind {
    match op {
        Op2::And | Op2::Or => Kind::Bool,
        _ => Kind::Int,
    }
}

/// The result of a binary operator on a left and a right operand. Where
/// both operands are of the wrong variant, the fault names the left one.
pub open spec fn binary(op: Op2, l: Val, r: Val) -> Result<Val, MachineFault> {
    match (l, r) {
        (Val::Int(a), Val::Int(b)) => match op {
            Op2::Add => ranged(a + b),
            Op2::Sub => ranged(a - b),
            Op2::Mul => ranged(a * b),
            Op2::Div => if b == 0 {
                Err(MachineFault::DivisionByZero)
            } else {
                ranged(quotient(a as int, b as int))
            },
            Op2::Lte => Ok(Val::Bool(a <= b)),
            Op2::Gte => Ok(Val::Bool(a >= b)),
            Op2::Lt => Ok(Val::Bool(a < b)),
            Op2::Gt => Ok(Val::Bool(a > b)),
            Op2::Eq => Ok(Val::Bool(a == b)),
            Op2::Neq => Ok(Val::Bool(a != b)),
            Op2::And | Op2::Or => Err(
                MachineFault::TypeMismatch {
                    op: Operation::Binary(op),
                    expected: Kind::Bool,
                    actual: Kind::Int,
                },
            ),
        },
        (Val::Bool(a), Val::Bool(b)) => match op {
            Op2::And => Ok(Val::Bool(a && b)),
            Op2::Or => Ok(Val::Bool(a || b)),
            _ => Err(
                MachineFault::TypeMismatch {
                    op: Operation::Binary(op),
                    expected: Kind::Int,
                    actual: Kind::Bool,
                },
            ),
        },
        _ => Err(
            MachineFault::TypeMismatch {
                op: Operation::Binary(op),
                expected: operand_kind(op),
                actual: if l.kind() == operand_kind(op) {
                    r.kind()
                } else {
                    l.kind()
                },
            },
        ),
    }
}

/// The state after a value has been pushed, unless the stack is full.
pub open spec fn pushed(stack: Seq<Val>, v: Val, env: Seq<Val>, code: Seq<Instr>) -> Step {
    if stack.len() < usize::MAX {
        Step::Next(State { stack: seq![v] + stack, env, code })
    } else {
        Step::Fault(MachineFault::CapacityExceeded)
    }
}

/// A step that replaces the operands on top of the stack by a result.
pub open spec fn replaced(
    r: Result<Val, MachineFault>,
    below: Seq<Val>,
    env: Seq<Val>,
    code: Seq<Instr>,
) -> Step {
    match r {
        Ok(v) => Step::Next(State { stack: seq![v] + below, env, code }),
        Err(e) => Step::Fault(e),
    }
}

impl State {
    /// The state in which a run of `code` begins.
    pub open spec fn initial(code: Seq<Instr>) -> State {
        State { stack: Seq::empty(), env: Seq::empty(), code }
    }

    /// One transition of the machine.
    pub open spec fn step(self) -> Step {
        if self.code.len() == 0 {
            if self.stack.len() == 1 {
                Step::Done(self.stack[0])
            } else {
                Step::Fault(MachineFault::MalformedProgram)
            }
        } else {
            let rest = self.code.drop_first();
            let stack = self.stack;
            let env = self.env;
            match self.code[0] {
                Instr::Int(i) => pushed(stack, Val::Int(i), env, rest),
                Instr::Bool(b) => pushed(stack, Val::Bool(b), env, rest),
                Instr::Unary(op) => if stack.len() < 1 {
                    Step::Fault(MachineFault::StackUnderflow)
                } else {
                    replaced(unary(op, stack[0]), stack.drop_first(), env, rest)
                },
                Instr::Binary(op) => if stack.len() < 2 {
                    Step::Fault(MachineFault::StackUnderflow)
                } else {
                    replaced(
                        binary(op, stack[1], stack[0]),
                        stack.drop_first().drop_first(),
                        env,
                        rest,
                    )
                },
                Instr::Access(i) => if i >= env.len() {
                    Step::Fault(MachineFault::EnvironmentIndexOutOfRange(i))
                } else {
                    pushed(stack, env[i as int], env, rest)
                },
                Instr::Closure(c) => pushed(stack, Val::Clo(c, env), env, rest),
                Instr::Ifte(yes, no) => if stack.len() < 1 {
                    Step::Fault(MachineFault::StackUnderflow)
                } else {
                    match stack[0] {
                        Val::Bool(b) => {
                            let chosen = if b {
                                yes
                            } else {
                                no
                            };
                            if chosen.len() + rest.len() > usize::MAX {
                                Step::Fault(MachineFault::CapacityExceeded)
                            } else {
                                Step::Next(
                                    State { stack: stack.drop_first(), env, code: chosen + rest },
                                )
                            }
                        },
                        v => Step::Fault(
                            MachineFault::TypeMismatch {
                                op: Operation::Branch,
                                expected: Kind::Bool,
                                actual: v.kind(),
                            },
                        ),
                    }
                },
                Instr::Let => if stack.len() < 1 {
                    Step::Fault(MachineFault::StackUnderflow)
                } else if env.len() >= usize::MAX {
                    Step::Fault(MachineFault::CapacityExceeded)
                } else {
                    Step::Next(
                        State { stack: stack.drop_first(), env: seq![stack[0]] + env, code: rest },
                    )
                },
                Instr::EndLet => Step::Next(
                    State {
                        stack,
                        env: if env.len() > 0 {
                            env.drop_first()
                        } else {
                            env
                        },
                        code: rest,
                    },
                ),
                Instr::Apply => if stack.len() < 2 {
                    Step::Fault(MachineFault::StackUnderflow)
                } else {
                    match stack[1] {
                        Val::Clo(body, captured) => if captured.len() + 2 > usize::MAX {
                            Step::Fault(MachineFault::CapacityExceeded)
                        } else {
                            Step::Next(
                                State {
                                    stack: seq![Val::Clo(rest, env)]
                                        + stack.drop_first().drop_first(),
                                    env: seq![stack[1]] + (seq![stack[0]] + captured),
                                    code: body,
                                },
                            )
                        },
                        f => Step::Fault(MachineFault::NotCallable(f.kind())),
                    }
                },
                Instr::Return => if stack.len() < 2 {
                    Step::Fault(MachineFault::StackUnderflow)
                } else {
                    match stack[1] {
                        Val::Clo(code, saved) => Step::Next(
                            State {
                                stack: seq![stack[0]] + stack.drop_first().drop_first(),
                                env: saved,
                                code,
                            },
                        ),
                        v => Step::Fault(MachineFault::CorruptContinuation(v.kind())),
                    }
                },
            }
        }
    }

    /// What at most `fuel` transitions lead to: the state reached if the
    /// machine is still going, else the value or fault on which it stopped.
    pub open spec fn run(self, fuel: nat) -> Step
        decreases fuel,
    {
        if fuel == 0 {
            Step::Next(self)
        } else {
            match self.step() {
                Step::Next(s) => s.run((fuel - 1) as nat),
                stopped => stopped,
            }
        }
    }
}

/// The result that a bounded run reports for what the machine reached.
pub open spec fn reported(s: Step, r: Result<Value, MachineFault>) -> bool {
    match s {
        Step::Next(_) => r == Err::<Value, MachineFault>(MachineFault::OutOfFuel),
        Step::Done(v) => r is Ok && r->Ok_0@ == v,
        Step::Fault(e) => r == Err::<Value, MachineFault>(e),
    }
}

/// A machine between two transitions.
#[derive(Debug)]
pub struct Machine {
    stack: ValueList,
    env: ValueList,
    code: Code,
}

/// What a transition of a `Machine` gave.
#[derive(Debug)]
pub enum Transition {
    Next(Machine),
    Done(Value),
    Fault(MachineFault),
}

impl View for Machine {
    type V = State;

    closed spec fn view(&self) -> State {
        State { stack: self.stack@, env: self.env@, code: self.code@ }
    }
}

impl View for Transition {
    type V = Step;

    open spec fn view(&self) -> Step {
        match *self {
            Transition::Next(m) => Step::Next(m@),
            Transition::Done(v) => Step::Done(v@),
            Transition::Fault(e) => Step::Fault(e),
        }
    }
}

/// Applies a unary operator.
pub fn apply_unary(op: Op1, v: &Value) -> (r: Result<Value, MachineFault>)
    ensures
        match unary(op, v@) {
            Ok(x) => r is Ok && r->Ok_0@ == x,
            Err(e) => r == Err::<Value, MachineFault>(e),
        },
{
    match op {
        Op1::Neg => match v {
            Value::Int(i) => match 0i32.checked_sub(*i) {
                Some(n) => Ok(Value::Int(n)),
                None => Err(MachineFault::ArithmeticOverflow),
            },
            _ => Err(
                MachineFault::TypeMismatch {
                    op: Operation::Unary(op),
                    expected: Kind::Int,
                    actual: v.kind(),
                },
            ),
        },
        Op1::Not => match v {
            Value::Bool(b) => Ok(Value::Bool(!*b)),
            _ => Err(
                MachineFault::TypeMismatch {
                    op: Operation::Unary(op),
                    expected: Kind::Bool,
                    actual: v.kind(),
                },
            ),
        },
    }
}

/// A checked arithmetic result as a value.
fn in_range(n: Option<i32>) -> (r: Result<Value, MachineFault>)
    ensures
        match n {
            Some(k) => r is Ok && r->Ok_0@ == Val::Int(k),
            None => r == Err::<Value, MachineFault>(MachineFault::ArithmeticOverflow),
        },
{
    match n {
        Some(k) => Ok(Value::Int(k)),
        None => Err(MachineFault::ArithmeticOverflow),
    }
}

/// Applies a binary operator to a left and a right operand.
pub fn apply_binary(op: Op2, l: &Value, r: &Value) -> (res: Result<Value, MachineFault>)
    ensures
        match binary(op, l@, r@) {
            Ok(x) => res is Ok && res->Ok_0@ == x,
            Err(e) => res == Err::<Value, MachineFault>(e),
        },
{
    match (l, r) {
        (Value::Int(a), Value::Int(b)) => match op {
            Op2::Add => in_range(a.checked_add(*b)),
            Op2::Sub => in_range(a.checked_sub(*b)),
            Op2::Mul => in_range(a.checked_mul(*b)),
            Op2::Div => if *b == 0 {
                Err(MachineFault::DivisionByZero)
            } else {
                in_range(a.checked_div(*b))
            },
            Op2::Lte => Ok(Value::Bool(*a <= *b)),
            Op2::Gte => Ok(Value::Bool(*a >= *b)),
            Op2::Lt => Ok(Value::Bool(*a < *b)),
            Op2::Gt => Ok(Value::Bool(*a > *b)),
            Op2::Eq => Ok(Value::Bool(*a == *b)),
            Op2::Neq => Ok(Value::Bool(*a != *b)),
            Op2::And | Op2::Or => Err(
                MachineFault::TypeMismatch {
                    op: Operation::Binary(op),
                    expected: Kind::Bool,
                    actual: Kind::Int,
                },
            ),
        },
        (Value::Bool(a), Value::Bool(b)) => match op {
            Op2::And => Ok(Value::Bool(*a && *b)),
            Op2::Or => Ok(Value::Bool(*a || *b)),
            _ => Err(
                MachineFault::TypeMismatch {
                    op: Operation::Binary(op),
                    expected: Kind::Int,
                    actual: Kind::Bool,
                },
            ),
        },
        _ => {
            let want = match op {
                Op2::And | Op2::Or => Kind::Bool,
                _ => Kind::Int,
            };
            let left = l.kind();
            let actual = if left == want {
                r.kind()
            } else {
                left
            };
            Err(MachineFault::TypeMismatch { op: Operation::Binary(op), expected: want, actual })
        },
    }
}

/// Pushes a value, unless the stack is full.
fn push(stack: ValueList, v: Value, env: ValueList, code: Code) -> (t: Transition)
    ensures
        t@ == pushed(stack@, v@, env@, code@),
{
    let mut stack = stack;
    if stack.len() < usize::MAX {
        stack.push_front(v);
        Transition::Next(Machine { stack, env, code })
    } else {
        Transition::Fault(MachineFault::CapacityExceeded)
    }
}

/// Replaces the operand on top of the stack by the operator's result.
fn unary_step(op: Op1, stack: ValueList, env: ValueList, code: Code) -> (t: Transition)
    ensures
        t@ == if stack@.len() < 1 {
            Step::Fault(MachineFault::StackUnderflow)
        } else {
            replaced(unary(op, stack@[0]), stack@.drop_first(), env@, code@)
        },
{
    let mut stack = stack;
    if stack.len() < 1 {
        return Transition::Fault(MachineFault::StackUnderflow);
    }
    match stack.pop_front() {
        None => Transition::Fault(MachineFault::StackUnderflow),
        Some(v) => match apply_unary(op, &v) {
            Ok(x) => {
                stack.push_front(x);
                Transition::Next(Machine { stack, env, code })
            },
            Err(e) => Transition::Fault(e),
        },
    }
}

/// Replaces the two operands on top of the stack by the operator's result.
/// The top is the right operand, the value under it the left one.
fn binary_step(op: Op2, stack: ValueList, env: ValueList, code: Code) -> (t: Transition)
    ensures
        t@ == if stack@.len() < 2 {
            Step::Fault(MachineFault::StackUnderflow)
        } else {
            replaced(
                binary(op, stack@[1], stack@[0]),
                stack@.drop_first().drop_first(),
                env@,
                code@,
            )
        },
{
    let mut stack = stack;
    if stack.len() < 2 {
        return Transition::Fault(MachineFault::StackUnderflow);
    }
    match stack.pop_front() {
        None => Transition::Fault(MachineFault::StackUnderflow),
        Some(right) => match stack.pop_front() {
            None => Transition::Fault(MachineFault::StackUnderflow),
            Some(left) => match apply_binary(op, &left, &right) {
                Ok(x) => {
                    stack.push_front(x);
                    Transition::Next(Machine { stack, env, code })
                },
                Err(e) => Transition::Fault(e),
            },
        },
    }
}

/// Continues with the chosen branch in front of the remaining code.
fn branch_step(yes: Code, no: Code, stack: ValueList, env: ValueList, code: Code) -> (t:
    Transition)
    ensures
        t@ == (State {
            stack: stack@,
            env: env@,
            code: seq![Instr::Ifte(yes@, no@)] + code@,
        }).step(),
{
    let mut stack = stack;
    proof {
        let whole = seq![Instr::Ifte(yes@, no@)] + code@;
        assert(whole.drop_first() =~= code@);
    }
    match stack.pop_front() {
        None => Transition::Fault(MachineFault::StackUnderflow),
        Some(v) => match v {
            Value::Bool(b) => {
                let chosen = if b {
                    yes
                } else {
                    no
                };
                if chosen.len() > usize::MAX - code.len() {
                    Transition::Fault(MachineFault::CapacityExceeded)
                } else {
                    Transition::Next(Machine { stack, env, code: chosen.concat(code) })
                }
            },
            other => Transition::Fault(
                MachineFault::TypeMismatch {
                    op: Operation::Branch,
                    expected: Kind::Bool,
                    actual: other.kind(),
                },
            ),
        },
    }
}

/// Enters a closure: saves the caller's code and environment on the stack
/// and binds the closure itself and its argument in the captured environment.
fn call_step(stack: ValueList, env: ValueList, code: Code) -> (t: Transition)
    ensures
        t@ == (State { stack: stack@, env: env@, code: seq![Instr::Apply] + code@ }).step(),
{
    let mut stack = stack;
    proof {
        let whole = seq![Instr::Apply] + code@;
        assert(whole.drop_first() =~= code@);
    }
    if stack.len() < 2 {
        return Transition::Fault(MachineFault::StackUnderflow);
    }
    match stack.pop_front() {
        None => Transition::Fault(MachineFault::StackUnderflow),
        Some(arg) => match stack.pop_front() {
            None => Transition::Fault(MachineFault::StackUnderflow),
            Some(f) => match f.clone() {
                Value::Clo(body, captured) => {
                    let mut inner = captured;
                    if inner.len() >= usize::MAX - 1 {
                        Transition::Fault(MachineFault::CapacityExceeded)
                    } else {
                        stack.push_front(Value::Clo(code, env));
                        inner.push_front(arg);
                        inner.push_front(f);
                        Transition::Next(Machine { stack, env: inner, code: body })
                    }
                },
                other => Transition::Fault(MachineFault::NotCallable(other.kind())),
            },
        },
    }
}

/// Leaves a closure: restores the caller's code and environment from under
/// the result.
fn return_step(stack: ValueList, env: ValueList, code: Code) -> (t: Transition)
    ensures
        t@ == (State { stack: stack@, env: env@, code: seq![Instr::Return] + code@ }).step(),
{
    let mut stack = stack;
    proof {
        let whole = seq![Instr::Return] + code@;
        assert(whole.drop_first() =~= code@);
    }
    if stack.len() < 2 {
        return Transition::Fault(MachineFault::StackUnderflow);
    }
    match stack.pop_front() {
        None => Transition::Fault(MachineFault::StackUnderflow),
        Some(result) => match stack.pop_front() {
            None => Transition::Fault(MachineFault::StackUnderflow),
            Some(frame) => match frame {
                Value::Clo(resume, saved) => {
                    stack.push_front(result);
                    Transition::Next(Machine { stack, env: saved, code: resume })
                },
                other => Transition::Fault(MachineFault::CorruptContinuation(other.kind())),
            },
        },
    }
}

impl Machine {
    /// A machine about to run `code` on an empty stack and environment.
    pub fn new(code: Code) -> (m: Machine)
        ensures
            m@ == State::initial(code@),
    {
        Machine { stack: ValueList::new(), env: ValueList::new(), code }
    }

    /// Makes one transition.
    pub fn step(self) -> (t: Transition)
        ensures
            t@ == self@.step(),
    {
        let ghost before = self@;
        let mut stack = self.stack;
        let mut env = self.env;
        let mut code = self.code;
        let depth: usize = stack.len();
        match code.pop_front() {
            None => {
                if depth == 1 {
                    match stack.pop_front() {
                        Some(v) => Transition::Done(v),
                        None => Transition::Fault(MachineFault::MalformedProgram),
                    }
                } else {
                    Transition::Fault(MachineFault::MalformedProgram)
                }
            },
            Some(cmd) => {
                proof {
                    assert(before.code =~= seq![cmd@] + code@);
                }
                match cmd {
                    CMD::INT(i) => push(stack, Value::Int(i), env, code),
                    CMD::BOOL(b) => push(stack, Value::Bool(b), env, code),
                    CMD::ADD => binary_step(Op2::Add, stack, env, code),
                    CMD::SUB => binary_step(Op2::Sub, stack, env, code),
                    CMD::MUL => binary_step(Op2::Mul, stack, env, code),
                    CMD::DIV => binary_step(Op2::Div, stack, env, code),
                    CMD::LTE => binary_step(Op2::Lte, stack, env, code),
                    CMD::GTE => binary_step(Op2::Gte, stack, env, code),
                    CMD::LT => binary_step(Op2::Lt, stack, env, code),
                    CMD::GT => binary_step(Op2::Gt, stack, env, code),
                    CMD::EQ => binary_step(Op2::Eq, stack, env, code),
                    CMD::NEQ => binary_step(Op2::Neq, stack, env, code),
                    CMD::AND => binary_step(Op2::And, stack, env, code),
                    CMD::OR => binary_step(Op2::Or, stack, env, code),
                    CMD::NEG => unary_step(Op1::Neg, stack, env, code),
                    CMD::NOT => unary_step(Op1::Not, stack, env, code),
                    CMD::ACCESS(i) => {
                        let found = match env.get(i) {
                            Some(v) => Some(v.clone()),
                            None => None,
                        };
                        match found {
                            Some(v) => push(stack, v, env, code),
                            None => Transition::Fault(
                                MachineFault::EnvironmentIndexOutOfRange(i),
                            ),
                        }
                    },
                    CMD::CLOSURE(body) => {
                        let captured = env.clone();
                        push(stack, Value::Clo(body, captured), env, code)
                    },
                    CMD::IFTE(yes, no) => branch_step(yes, no, stack, env, code),
                    CMD::LET => {
                        let bound: usize = env.len();
                        match stack.pop_front() {
                            None => Transition::Fault(MachineFault::StackUnderflow),
                            Some(v) => {
                                if bound < usize::MAX {
                                    env.push_front(v);
                                    Transition::Next(Machine { stack, env, code })
                                } else {
                                    Transition::Fault(MachineFault::CapacityExceeded)
                                }
                            },
                        }
                    },
                    CMD::ENDLET => {
                        let _ = env.pop_front();
                        Transition::Next(Machine { stack, env, code })
                    },
                    CMD::APPLY => call_step(stack, env, code),
                    CMD::RETURN => return_step(stack, env, code),
                }
            },
        }
    }

    /// Makes transitions until the machine stops or `fuel` of them are made.
    pub fn run_for(self, fuel: u64) -> (t: Transition)
        ensures
            t@ == self@.run(fuel as nat),
    {
        let ghost start = self@;
        let mut left: u64 = fuel;
        let mut cur = self;
        while left > 0
            invariant
                start == self@,
                cur@.run(left as nat) == start.run(fuel as nat),
            decreases left,
        {
            match cur.step() {
                Transition::Next(m) => {
                    cur = m;
                    left = left - 1;
                },
                Transition::Done(v) => {
                    return Transition::Done(v);
                },
                Transition::Fault(e) => {
                    return Transition::Fault(e);
                },
            }
        }
        Transition::Next(cur)
    }
}

/// Runs `code` from an empty stack and environment for at most `fuel`
/// transitions.
pub fn execute_for(code: Code, fuel: u64) -> (r: Result<Value, MachineFault>)
    ensures
        reported(State::initial(code@).run(fuel as nat), r),
{
    match Machine::new(code).run_for(fuel) {
        Transition::Next(_) => Err(MachineFault::OutOfFuel),
        Transition::Done(v) => Ok(v),
        Transition::Fault(e) => Err(e),
    }
}

/// Runs `code` from an empty stack and environment until the machine stops,
/// for as many transitions as a `u64` can count.
pub fn execute(code: Code) -> (r: Result<Value, MachineFault>)
    ensures
        reported(State::initial(code@).run(u64::MAX as nat), r),
{
    execute_for(code, u64::MAX)
}

impl Term {
    /// Compiles this term with no name in scope and runs its code for at
    /// most `fuel` transitions.
    pub fn run_for(&self, fuel: u64) -> (r: Result<Value, MachineFault>)
        ensures
            match self.compiled(Seq::empty(), Seq::empty()) {
                Ok(c) => reported(State::initial(c).run(fuel as nat), r),
                Err(e) => r == Err::<Value, MachineFault>(e),
            },
    {
        match self.compile(empty_names()) {
            Ok(code) => execute_for(code, fuel),
            Err(e) => Err(e),
        }
    }

    /// Compiles this term with no name in scope and runs its code until the
    /// machine stops, for as many transitions as a `u64` can count.
    pub fn run(&self) -> (r: Result<Value, MachineFault>)
        ensures
            match self.compiled(Seq::empty(), Seq::empty()) {
                Ok(c) => reported(State::initial(c).run(u64::MAX as nat), r),
                Err(e) => r == Err::<Value, MachineFault>(e),
            },
    {
        self.run_for(u64::MAX)
    }
}

} // verus!
