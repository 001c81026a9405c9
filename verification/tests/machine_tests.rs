use lam_machine::ast::{Op1, Op2, Term};
use lam_machine::code::{Code, CMD};
use lam_machine::machine::{
    apply_binary, apply_unary, execute, execute_for, Machine, Transition,
};
use lam_machine::names::resolve;
use lam_machine::value::{Kind, MachineFault, Operation, Value};
use std::rc::Rc;

const FUEL: u64 = 1_000_000;

fn num(i: i32) -> Term {
    Term::Int(i)
}

fn boolean(b: bool) -> Term {
    Term::Bool(b)
}

fn var(x: &str) -> Term {
    Term::Var(String::from(x))
}

fn op1(op: Op1, m: Term) -> Term {
    Term::Op1(op, Rc::new(m))
}

fn op2(op: Op2, m: Term, n: Term) -> Term {
    Term::Op2(op, Rc::new(m), Rc::new(n))
}

fn fun(f: &str, x: &str, m: Term) -> Term {
    Term::Fun(String::from(f), String::from(x), Rc::new(m))
}

fn app(m: Term, n: Term) -> Term {
    Term::App(Rc::new(m), Rc::new(n))
}

fn let_in(x: &str, m: Term, n: Term) -> Term {
    Term::LetIn(String::from(x), Rc::new(m), Rc::new(n))
}

fn ifte(c: Term, m: Term, n: Term) -> Term {
    Term::Ifte(Rc::new(c), Rc::new(m), Rc::new(n))
}

fn fact() -> Term {
    fun(
        "fact",
        "n",
        ifte(
            op2(Op2::Lte, var("n"), num(0)),
            num(1),
            op2(
                Op2::Mul,
                var("n"),
                app(var("fact"), op2(Op2::Sub, var("n"), num(1))),
            ),
        ),
    )
}

fn compiled(t: &Term) -> Vec<CMD> {
    t.compile(im::Vector::new()).unwrap().to_vec()
}

fn run_code(cmds: Vec<CMD>) -> Result<Value, MachineFault> {
    execute_for(Code::from_vec(&cmds), FUEL)
}

#[test]
fn literals_compile_to_one_push() {
    assert_eq!(compiled(&num(7)), vec![CMD::INT(7)]);
    assert_eq!(compiled(&boolean(true)), vec![CMD::BOOL(true)]);
}

#[test]
fn literals_run_to_themselves() {
    assert_eq!(num(7).run_for(FUEL), Ok(Value::Int(7)));
    assert_eq!(boolean(false).run_for(FUEL), Ok(Value::Bool(false)));
}

#[test]
fn binary_operands_compile_left_to_right() {
    let t = op2(Op2::Sub, num(10), num(4));
    assert_eq!(compiled(&t), vec![CMD::INT(10), CMD::INT(4), CMD::SUB]);
    assert_eq!(t.run_for(FUEL), Ok(Value::Int(6)));
}

#[test]
fn every_binary_operator_has_its_instruction() {
    let expect = [
        (Op2::Add, CMD::ADD),
        (Op2::Sub, CMD::SUB),
        (Op2::Mul, CMD::MUL),
        (Op2::Div, CMD::DIV),
        (Op2::Lte, CMD::LTE),
        (Op2::Gte, CMD::GTE),
        (Op2::Lt, CMD::LT),
        (Op2::Gt, CMD::GT),
        (Op2::Eq, CMD::EQ),
        (Op2::Neq, CMD::NEQ),
        (Op2::And, CMD::AND),
        (Op2::Or, CMD::OR),
    ];
    for (op, cmd) in expect {
        assert_eq!(op.compile(), cmd);
    }
    assert_eq!(Op1::Neg.compile(), CMD::NEG);
    assert_eq!(Op1::Not.compile(), CMD::NOT);
}

#[test]
fn arithmetic_results() {
    assert_eq!(op2(Op2::Add, num(2), num(3)).run_for(FUEL), Ok(Value::Int(5)));
    assert_eq!(op2(Op2::Sub, num(2), num(3)).run_for(FUEL), Ok(Value::Int(-1)));
    assert_eq!(op2(Op2::Mul, num(-4), num(3)).run_for(FUEL), Ok(Value::Int(-12)));
    assert_eq!(op2(Op2::Div, num(7), num(2)).run_for(FUEL), Ok(Value::Int(3)));
    assert_eq!(op1(Op1::Neg, num(5)).run_for(FUEL), Ok(Value::Int(-5)));
}

#[test]
fn division_rounds_toward_zero() {
    assert_eq!(op2(Op2::Div, num(7), num(-2)).run_for(FUEL), Ok(Value::Int(-3)));
    assert_eq!(op2(Op2::Div, num(-7), num(2)).run_for(FUEL), Ok(Value::Int(-3)));
    assert_eq!(op2(Op2::Div, num(-7), num(-2)).run_for(FUEL), Ok(Value::Int(3)));
    assert_eq!(op2(Op2::Div, num(0), num(-2)).run_for(FUEL), Ok(Value::Int(0)));
}

#[test]
fn comparison_results() {
    assert_eq!(op2(Op2::Lte, num(2), num(2)).run_for(FUEL), Ok(Value::Bool(true)));
    assert_eq!(op2(Op2::Gte, num(1), num(2)).run_for(FUEL), Ok(Value::Bool(false)));
    assert_eq!(op2(Op2::Lt, num(1), num(2)).run_for(FUEL), Ok(Value::Bool(true)));
    assert_eq!(op2(Op2::Gt, num(1), num(2)).run_for(FUEL), Ok(Value::Bool(false)));
    assert_eq!(op2(Op2::Eq, num(3), num(3)).run_for(FUEL), Ok(Value::Bool(true)));
    assert_eq!(op2(Op2::Neq, num(3), num(3)).run_for(FUEL), Ok(Value::Bool(false)));
}

#[test]
fn boolean_results() {
    assert_eq!(
        op2(Op2::And, boolean(true), boolean(false)).run_for(FUEL),
        Ok(Value::Bool(false))
    );
    assert_eq!(
        op2(Op2::Or, boolean(true), boolean(false)).run_for(FUEL),
        Ok(Value::Bool(true))
    );
    assert_eq!(op1(Op1::Not, boolean(true)).run_for(FUEL), Ok(Value::Bool(false)));
}

#[test]
fn operands_are_taken_in_order() {
    let l = Value::Int(10);
    let r = Value::Int(3);
    assert_eq!(apply_binary(Op2::Sub, &l, &r), Ok(Value::Int(7)));
    assert_eq!(apply_binary(Op2::Lt, &l, &r), Ok(Value::Bool(false)));
    assert_eq!(apply_unary(Op1::Neg, &r), Ok(Value::Int(-3)));
}

#[test]
fn overflow_is_a_fault() {
    assert_eq!(
        op2(Op2::Add, num(i32::MAX), num(1)).run_for(FUEL),
        Err(MachineFault::ArithmeticOverflow)
    );
    assert_eq!(
        op2(Op2::Sub, num(i32::MIN), num(1)).run_for(FUEL),
        Err(MachineFault::ArithmeticOverflow)
    );
    assert_eq!(
        op2(Op2::Mul, num(65536), num(65536)).run_for(FUEL),
        Err(MachineFault::ArithmeticOverflow)
    );
    assert_eq!(
        op2(Op2::Div, num(i32::MIN), num(-1)).run_for(FUEL),
        Err(MachineFault::ArithmeticOverflow)
    );
    assert_eq!(
        op1(Op1::Neg, num(i32::MIN)).run_for(FUEL),
        Err(MachineFault::ArithmeticOverflow)
    );
    assert_eq!(
        op2(Op2::Add, num(i32::MAX), num(0)).run_for(FUEL),
        Ok(Value::Int(i32::MAX))
    );
}

#[test]
fn inner_let_shadows_outer() {
    let t = let_in("x", num(1), let_in("x", num(2), var("x")));
    assert_eq!(t.run_for(FUEL), Ok(Value::Int(2)));
}

#[test]
fn outer_binding_returns_after_inner_scope() {
    let t = let_in(
        "x",
        num(1),
        op2(Op2::Add, let_in("x", num(2), var("x")), var("x")),
    );
    assert_eq!(t.run_for(FUEL), Ok(Value::Int(3)));
}

#[test]
fn let_compiles_to_scope_instructions() {
    let t = let_in("x", num(1), let_in("y", num(2), var("x")));
    assert_eq!(
        compiled(&t),
        vec![
            CMD::INT(1),
            CMD::LET,
            CMD::INT(2),
            CMD::LET,
            CMD::ACCESS(1),
            CMD::ENDLET,
            CMD::ENDLET
        ]
    );
}

#[test]
fn factorial_of_five() {
    assert_eq!(app(fact(), num(5)).run_for(FUEL), Ok(Value::Int(120)));
}

#[test]
fn factorial_without_a_budget() {
    assert_eq!(app(fact(), num(5)).run(), Ok(Value::Int(120)));
    assert_eq!(app(fact(), num(0)).run(), Ok(Value::Int(1)));
    assert_eq!(
        op2(Op2::Div, num(3), num(0)).run(),
        Err(MachineFault::DivisionByZero)
    );
}

#[test]
fn factorial_of_zero() {
    assert_eq!(app(fact(), num(0)).run_for(FUEL), Ok(Value::Int(1)));
}

#[test]
fn factorial_through_let() {
    let t = let_in("fact", fact(), app(var("fact"), num(6)));
    assert_eq!(t.run_for(FUEL), Ok(Value::Int(720)));
}

#[test]
fn function_binds_itself_before_its_argument() {
    let t = fun("f", "x", var("x"));
    let body = Code::from_vec(&vec![CMD::ACCESS(1), CMD::RETURN]);
    assert_eq!(compiled(&t), vec![CMD::CLOSURE(body)]);
    let s = fun("f", "x", var("f"));
    let own = Code::from_vec(&vec![CMD::ACCESS(0), CMD::RETURN]);
    assert_eq!(compiled(&s), vec![CMD::CLOSURE(own)]);
}

#[test]
fn application_compiles_function_then_argument() {
    let t = let_in("g", fun("", "x", var("x")), app(var("g"), num(4)));
    let body = Code::from_vec(&vec![CMD::ACCESS(1), CMD::RETURN]);
    assert_eq!(
        compiled(&t),
        vec![
            CMD::CLOSURE(body),
            CMD::LET,
            CMD::ACCESS(0),
            CMD::INT(4),
            CMD::APPLY,
            CMD::ENDLET
        ]
    );
    assert_eq!(t.run_for(FUEL), Ok(Value::Int(4)));
}

#[test]
fn closure_keeps_the_environment_of_its_definition() {
    let t = let_in(
        "y",
        num(1),
        let_in(
            "f",
            fun("", "x", op2(Op2::Add, var("x"), var("y"))),
            let_in("y", num(100), app(var("f"), num(2))),
        ),
    );
    assert_eq!(t.run_for(FUEL), Ok(Value::Int(3)));
}

#[test]
fn curried_functions() {
    let add = fun("", "a", fun("", "b", op2(Op2::Add, var("a"), var("b"))));
    let t = app(app(add, num(3)), num(4));
    assert_eq!(t.run_for(FUEL), Ok(Value::Int(7)));
}

#[test]
fn a_function_is_a_value() {
    let r = fun("f", "x", var("x")).run_for(FUEL);
    assert!(matches!(r, Ok(Value::Clo(_, _))));
    assert_eq!(r.unwrap().kind(), Kind::Closure);
}

#[test]
fn and_evaluates_both_operands() {
    let t = op2(Op2::And, boolean(false), op2(Op2::Div, num(1), num(0)));
    assert_eq!(t.run_for(FUEL), Err(MachineFault::DivisionByZero));
    let u = op2(Op2::And, boolean(false), num(1));
    assert_eq!(
        u.run_for(FUEL),
        Err(MachineFault::TypeMismatch {
            op: Operation::Binary(Op2::And),
            expected: Kind::Bool,
            actual: Kind::Int
        })
    );
}

#[test]
fn or_evaluates_both_operands() {
    let t = op2(Op2::Or, boolean(true), op2(Op2::Div, num(1), num(0)));
    assert_eq!(t.run_for(FUEL), Err(MachineFault::DivisionByZero));
    assert_eq!(
        compiled(&op2(Op2::Or, boolean(true), boolean(false))),
        vec![CMD::BOOL(true), CMD::BOOL(false), CMD::OR]
    );
}

#[test]
fn conditional_runs_one_branch() {
    let t = ifte(boolean(true), num(1), op2(Op2::Div, num(1), num(0)));
    assert_eq!(t.run_for(FUEL), Ok(Value::Int(1)));
    let u = ifte(boolean(false), op2(Op2::Div, num(1), num(0)), num(2));
    assert_eq!(u.run_for(FUEL), Ok(Value::Int(2)));
}

#[test]
fn conditional_compiles_to_nested_branches() {
    let t = ifte(boolean(true), num(1), num(2));
    assert_eq!(
        compiled(&t),
        vec![
            CMD::BOOL(true),
            CMD::IFTE(
                Code::from_vec(&vec![CMD::INT(1)]),
                Code::from_vec(&vec![CMD::INT(2)])
            )
        ]
    );
}

#[test]
fn let_inside_a_branch_leaves_the_environment_as_it_was() {
    let t = let_in(
        "x",
        num(5),
        op2(
            Op2::Add,
            ifte(
                op2(Op2::Gt, var("x"), num(3)),
                let_in("y", num(1), var("y")),
                num(0),
            ),
            var("x"),
        ),
    );
    assert_eq!(t.run_for(FUEL), Ok(Value::Int(6)));
}

#[test]
fn branch_step_splices_in_front_of_pending_code() {
    let code = Code::from_vec(&vec![
        CMD::BOOL(false),
        CMD::IFTE(
            Code::from_vec(&vec![CMD::INT(1)]),
            Code::from_vec(&vec![CMD::INT(2)]),
        ),
        CMD::INT(40),
        CMD::ADD,
    ]);
    assert_eq!(execute_for(code, FUEL), Ok(Value::Int(42)));
}

#[test]
fn adding_a_bool_is_a_type_mismatch() {
    let t = op2(Op2::Add, num(1), boolean(true));
    assert_eq!(
        t.run_for(FUEL),
        Err(MachineFault::TypeMismatch {
            op: Operation::Binary(Op2::Add),
            expected: Kind::Int,
            actual: Kind::Bool
        })
    );
}

#[test]
fn mismatch_names_the_left_operand_first() {
    let t = op2(Op2::Add, boolean(true), fun("", "x", var("x")));
    assert_eq!(
        t.run_for(FUEL),
        Err(MachineFault::TypeMismatch {
            op: Operation::Binary(Op2::Add),
            expected: Kind::Int,
            actual: Kind::Bool
        })
    );
    let u = op2(Op2::Eq, boolean(true), boolean(true));
    assert_eq!(
        u.run_for(FUEL),
        Err(MachineFault::TypeMismatch {
            op: Operation::Binary(Op2::Eq),
            expected: Kind::Int,
            actual: Kind::Bool
        })
    );
}

#[test]
fn unary_and_branch_mismatches() {
    assert_eq!(
        op1(Op1::Not, num(1)).run_for(FUEL),
        Err(MachineFault::TypeMismatch {
            op: Operation::Unary(Op1::Not),
            expected: Kind::Bool,
            actual: Kind::Int
        })
    );
    assert_eq!(
        op1(Op1::Neg, boolean(true)).run_for(FUEL),
        Err(MachineFault::TypeMismatch {
            op: Operation::Unary(Op1::Neg),
            expected: Kind::Int,
            actual: Kind::Bool
        })
    );
    assert_eq!(
        ifte(num(1), num(2), num(3)).run_for(FUEL),
        Err(MachineFault::TypeMismatch {
            op: Operation::Branch,
            expected: Kind::Bool,
            actual: Kind::Int
        })
    );
}

#[test]
fn calling_an_integer_is_not_callable() {
    let t = app(num(3), num(4));
    assert_eq!(t.run_for(FUEL), Err(MachineFault::NotCallable(Kind::Int)));
}

#[test]
fn dividing_by_zero_is_a_fault() {
    let t = op2(Op2::Div, num(3), num(0));
    assert_eq!(t.run_for(FUEL), Err(MachineFault::DivisionByZero));
}

#[test]
fn undeclared_name_is_unbound() {
    let t = op2(Op2::Add, num(1), var("y"));
    assert_eq!(
        t.compile(im::Vector::new()).err(),
        Some(MachineFault::UnboundVariable(String::from("y")))
    );
    assert_eq!(
        t.run_for(FUEL),
        Err(MachineFault::UnboundVariable(String::from("y")))
    );
}

#[test]
fn name_is_unbound_outside_its_scope() {
    let t = op2(Op2::Add, let_in("x", num(1), var("x")), var("x"));
    assert_eq!(
        t.run_for(FUEL),
        Err(MachineFault::UnboundVariable(String::from("x")))
    );
}

#[test]
fn first_unbound_name_is_reported() {
    let t = op2(Op2::Add, var("a"), var("b"));
    assert_eq!(
        t.run_for(FUEL),
        Err(MachineFault::UnboundVariable(String::from("a")))
    );
}

#[test]
fn compile_under_given_names() {
    let a = String::from("a");
    let b = String::from("b");
    let c = String::from("c");
    let mut names = im::Vector::new();
    names.push_back(&a);
    names.push_back(&b);
    names.push_back(&a);
    assert_eq!(resolve(&names, &a), Some(0));
    assert_eq!(resolve(&names, &b), Some(1));
    assert_eq!(resolve(&names, &c), None);
    let code = var("b").compile(names).unwrap().to_vec();
    assert_eq!(code, vec![CMD::ACCESS(1)]);
}

#[test]
fn lookup_past_the_environment_is_a_fault() {
    assert_eq!(
        run_code(vec![CMD::ACCESS(0)]),
        Err(MachineFault::EnvironmentIndexOutOfRange(0))
    );
    assert_eq!(
        run_code(vec![CMD::INT(1), CMD::LET, CMD::ACCESS(1)]),
        Err(MachineFault::EnvironmentIndexOutOfRange(1))
    );
}

#[test]
fn return_without_a_saved_continuation_is_a_fault() {
    assert_eq!(
        run_code(vec![CMD::INT(1), CMD::INT(2), CMD::RETURN]),
        Err(MachineFault::CorruptContinuation(Kind::Int))
    );
}

#[test]
fn missing_operands_are_a_fault() {
    assert_eq!(run_code(vec![CMD::ADD]), Err(MachineFault::StackUnderflow));
    assert_eq!(
        run_code(vec![CMD::INT(1), CMD::ADD]),
        Err(MachineFault::StackUnderflow)
    );
    assert_eq!(run_code(vec![CMD::LET]), Err(MachineFault::StackUnderflow));
    assert_eq!(run_code(vec![CMD::APPLY]), Err(MachineFault::StackUnderflow));
}

#[test]
fn a_run_must_leave_one_value() {
    assert_eq!(run_code(vec![]), Err(MachineFault::MalformedProgram));
    assert_eq!(
        run_code(vec![CMD::INT(1), CMD::INT(2)]),
        Err(MachineFault::MalformedProgram)
    );
    assert_eq!(run_code(vec![CMD::INT(1)]), Ok(Value::Int(1)));
}

#[test]
fn leaving_an_empty_scope_changes_nothing() {
    assert_eq!(
        run_code(vec![CMD::ENDLET, CMD::INT(1)]),
        Ok(Value::Int(1))
    );
}

#[test]
fn endless_recursion_runs_out_of_fuel() {
    let t = app(fun("loop", "x", app(var("loop"), var("x"))), num(0));
    assert_eq!(t.run_for(1000), Err(MachineFault::OutOfFuel));
}

#[test]
fn fuel_counts_transitions() {
    let t = op2(Op2::Add, num(1), num(2));
    assert_eq!(t.run_for(3), Err(MachineFault::OutOfFuel));
    assert_eq!(t.run_for(4), Ok(Value::Int(3)));
    assert_eq!(t.run_for(5), Ok(Value::Int(3)));
}

#[test]
fn repeated_runs_agree() {
    let code = app(fact(), num(7)).compile(im::Vector::new()).unwrap();
    let first = execute_for(code.clone(), FUEL);
    let second = execute_for(code.clone(), FUEL);
    let third = execute(code);
    assert_eq!(first, Ok(Value::Int(5040)));
    assert_eq!(first, second);
    assert_eq!(first, third);
}

#[test]
fn a_machine_can_be_stepped_and_resumed() {
    let code = Code::from_vec(&vec![CMD::INT(1), CMD::INT(2), CMD::ADD]);
    let m = match Machine::new(code).step() {
        Transition::Next(m) => m,
        _ => panic!("the machine stopped after one transition"),
    };
    let m = match m.run_for(2) {
        Transition::Next(m) => m,
        _ => panic!("the machine stopped before the code ran out"),
    };
    match m.run_for(10) {
        Transition::Done(v) => assert_eq!(v, Value::Int(3)),
        _ => panic!("the machine did not finish"),
    }
}

#[test]
fn code_keeps_its_instructions_in_order() {
    let cmds = vec![CMD::INT(1), CMD::BOOL(true), CMD::ACCESS(2), CMD::RETURN];
    let code = Code::from_vec(&cmds);
    assert_eq!(code.to_vec(), cmds);
    assert_eq!(code.clone().to_vec(), cmds);
    assert_eq!(Code::from_vec(&Vec::new()).to_vec(), Vec::new());
}

#[test]
fn values_are_copied_with_their_content() {
    let v = Value::Int(4);
    assert_eq!(v.clone(), Value::Int(4));
    assert_eq!(v.kind(), Kind::Int);
    assert_eq!(Value::Bool(true).kind(), Kind::Bool);
}

#[test]
fn lambda_nests_one_function_per_parameter() {
    let params = vec![String::from("a"), String::from("b")];
    let body = op2(Op2::Sub, var("a"), var("b"));
    let t = Term::lambda(&params, body);
    match &t {
        Term::Fun(f, x, m) => {
            assert_eq!(f, "");
            assert_eq!(x, "a");
            match &**m {
                Term::Fun(g, y, _) => {
                    assert_eq!(g, "");
                    assert_eq!(y, "b");
                }
                _ => panic!("the inner function is missing"),
            }
        }
        _ => panic!("the outer function is missing"),
    }
    assert_eq!(app(app(t, num(9)), num(4)).run_for(FUEL), Ok(Value::Int(5)));
}

#[test]
fn lambda_without_parameters_is_its_body() {
    let t = Term::lambda(&Vec::new(), num(3));
    assert_eq!(t.run_for(FUEL), Ok(Value::Int(3)));
}
