use lam_machine::ast::{Op1, Op2, Term};
use lam_machine::value::Value;
use std::rc::Rc;

const FUEL: u64 = 1_000_000;

/// A value of the tree-walking evaluator below.
#[derive(Clone)]
enum Walked {
    Int(i32),
    Bool(bool),
    Fun(String, String, Rc<Term>, Vec<(String, Walked)>),
}

/// Evaluates a term directly, under named bindings with the innermost last.
/// `None` stands for an unbound name, a wrong operand or a failed operation.
fn walk(t: &Term, env: &Vec<(String, Walked)>) -> Option<Walked> {
    match t {
        Term::Int(i) => Some(Walked::Int(*i)),
        Term::Bool(b) => Some(Walked::Bool(*b)),
        Term::Var(x) => env
            .iter()
            .rev()
            .find(|(name, _)| name == x)
            .map(|(_, v)| v.clone()),
        Term::Op1(op, m) => match (op, walk(m, env)?) {
            (Op1::Neg, Walked::Int(i)) => i.checked_neg().map(Walked::Int),
            (Op1::Not, Walked::Bool(b)) => Some(Walked::Bool(!b)),
            _ => None,
        },
        Term::Op2(op, m, n) => {
            let l = walk(m, env)?;
            let r = walk(n, env)?;
            match (op, l, r) {
                (Op2::Add, Walked::Int(a), Walked::Int(b)) => a.checked_add(b).map(Walked::Int),
                (Op2::Sub, Walked::Int(a), Walked::Int(b)) => a.checked_sub(b).map(Walked::Int),
                (Op2::Mul, Walked::Int(a), Walked::Int(b)) => a.checked_mul(b).map(Walked::Int),
                (Op2::Div, Walked::Int(a), Walked::Int(b)) => a.checked_div(b).map(Walked::Int),
                (Op2::Lte, Walked::Int(a), Walked::Int(b)) => Some(Walked::Bool(a <= b)),
                (Op2::Gte, Walked::Int(a), Walked::Int(b)) => Some(Walked::Bool(a >= b)),
                (Op2::Lt, Walked::Int(a), Walked::Int(b)) => Some(Walked::Bool(a < b)),
                (Op2::Gt, Walked::Int(a), Walked::Int(b)) => Some(Walked::Bool(a > b)),
                (Op2::Eq, Walked::Int(a), Walked::Int(b)) => Some(Walked::Bool(a == b)),
                (Op2::Neq, Walked::Int(a), Walked::Int(b)) => Some(Walked::Bool(a != b)),
                (Op2::And, Walked::Bool(a), Walked::Bool(b)) => Some(Walked::Bool(a && b)),
                (Op2::Or, Walked::Bool(a), Walked::Bool(b)) => Some(Walked::Bool(a || b)),
                _ => None,
            }
        }
        Term::Fun(f, x, m) => Some(Walked::Fun(f.clone(), x.clone(), m.clone(), env.clone())),
        Term::App(m, n) => {
            let callee = walk(m, env)?;
            let arg = walk(n, env)?;
            match callee.clone() {
                Walked::Fun(f, x, body, mut inner) => {
                    inner.push((x, arg));
                    inner.push((f, callee));
                    walk(&body, &inner)
                }
                _ => None,
            }
        }
        Term::LetIn(x, m, n) => {
            let v = walk(m, env)?;
            let mut inner = env.clone();
            inner.push((x.clone(), v));
            walk(n, &inner)
        }
        Term::Ifte(c, m, n) => match walk(c, env)? {
            Walked::Bool(true) => walk(m, env),
            Walked::Bool(false) => walk(n, env),
            _ => None,
        },
    }
}

fn num(i: i32) -> Term {
    Term::Int(i)
}

fn var(x: &str) -> Term {
    Term::Var(String::from(x))
}

fn op2(op: Op2, m: Term, n: Term) -> Term {
    Term::Op2(op, Rc::new(m), Rc::new(n))
}

fn fun(f: &str, x: &str, m: Term) -> Term {
    Term::Fun(String::from(f), String::from(x), Rc::new(m))
}

fn app(m: Term, n: Term) -> Term {
    Term::App(Rc::new(m), Rc::new(n))
}

fn let_in(x: &str, m: Term, n: Term) -> Term {
    Term::LetIn(String::from(x), Rc::new(m), Rc::new(n))
}

fn ifte(c: Term, m: Term, n: Term) -> Term {
    Term::Ifte(Rc::new(c), Rc::new(m), Rc::new(n))
}

fn fib() -> Term {
    fun(
        "fib",
        "n",
        ifte(
            op2(Op2::Lt, var("n"), num(2)),
            var("n"),
            op2(
                Op2::Add,
                app(var("fib"), op2(Op2::Sub, var("n"), num(1))),
                app(var("fib"), op2(Op2::Sub, var("n"), num(2))),
            ),
        ),
    )
}

/// The machine and the tree-walking evaluator give the same integer or
/// boolean, or both give a function.
fn same_value(t: &Term) -> bool {
    match (t.run_for(FUEL), walk(t, &Vec::new())) {
        (Ok(Value::Int(a)), Some(Walked::Int(b))) => a == b,
        (Ok(Value::Bool(a)), Some(Walked::Bool(b))) => a == b,
        (Ok(Value::Clo(_, _)), Some(Walked::Fun(_, _, _, _))) => true,
        _ => false,
    }
}

#[test]
fn machine_agrees_on_arithmetic() {
    let t = op2(
        Op2::Sub,
        op2(Op2::Mul, num(6), num(7)),
        op2(Op2::Div, num(-9), num(2)),
    );
    assert!(same_value(&t));
    assert_eq!(t.run_for(FUEL), Ok(Value::Int(46)));
    assert!(same_value(&Term::Op1(Op1::Neg, Rc::new(num(8)))));
    assert!(same_value(&op2(Op2::Lte, num(3), num(3))));
}

#[test]
fn machine_agrees_on_booleans() {
    let t = op2(
        Op2::Or,
        op2(Op2::And, Term::Bool(true), Term::Bool(false)),
        Term::Op1(Op1::Not, Rc::new(Term::Bool(false))),
    );
    assert!(same_value(&t));
    assert_eq!(t.run_for(FUEL), Ok(Value::Bool(true)));
}

#[test]
fn machine_agrees_on_recursion() {
    let t = app(fib(), num(12));
    assert!(same_value(&t));
    assert_eq!(t.run_for(FUEL), Ok(Value::Int(144)));
}

#[test]
fn machine_agrees_on_shadowing_and_capture() {
    let t = let_in(
        "x",
        num(1),
        let_in(
            "f",
            fun("", "y", op2(Op2::Add, var("x"), var("y"))),
            let_in(
                "x",
                num(10),
                op2(Op2::Add, app(var("f"), var("x")), var("x")),
            ),
        ),
    );
    assert!(same_value(&t));
    assert_eq!(t.run_for(FUEL), Ok(Value::Int(21)));
}

#[test]
fn machine_agrees_on_higher_order_functions() {
    let twice = fun(
        "",
        "g",
        fun("", "z", app(var("g"), app(var("g"), var("z")))),
    );
    let t = app(
        app(twice, fun("", "n", op2(Op2::Mul, var("n"), num(3)))),
        num(5),
    );
    assert!(same_value(&t));
    assert_eq!(t.run_for(FUEL), Ok(Value::Int(45)));
}

#[test]
fn machine_agrees_on_conditionals_with_bindings() {
    let t = let_in(
        "a",
        num(4),
        ifte(
            op2(Op2::Gt, var("a"), num(3)),
            let_in("b", num(2), op2(Op2::Mul, var("a"), var("b"))),
            let_in("c", num(5), op2(Op2::Sub, var("a"), var("c"))),
        ),
    );
    assert!(same_value(&t));
    assert_eq!(t.run_for(FUEL), Ok(Value::Int(8)));
}

#[test]
fn machine_agrees_on_function_values() {
    assert!(same_value(&fib()));
}
