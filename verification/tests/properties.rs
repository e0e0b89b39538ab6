//! End-to-end behaviour of compile + run on whole programs.

use cam::cam::{RuntimeError, Val, VM};
use cam::compile::compile;
use cam::lang::{Exp, Lit, Prim};

const FUEL: u64 = 10_000_000;

fn num(n: i64) -> Exp {
    Exp::Lit(Lit::Int(n))
}

fn boolean(b: bool) -> Exp {
    Exp::Lit(Lit::Bool(b))
}

fn text(s: &str) -> Exp {
    Exp::Lit(Lit::String(String::from(s)))
}

fn prim(p: Prim) -> Exp {
    Exp::Lit(Lit::Prim(p))
}

fn var(i: u32) -> Exp {
    Exp::Var(i)
}

fn lam(n: u32, body: Exp) -> Exp {
    Exp::Lam(n, Box::new(body))
}

fn app(f: Exp, args: Vec<Exp>) -> Exp {
    Exp::App(Box::new(f), args)
}

fn cond(c: Exp, t: Exp, e: Exp) -> Exp {
    Exp::If(Box::new(c), Box::new(t), Box::new(e))
}

fn let_in(binds: Vec<Exp>, body: Exp) -> Exp {
    Exp::Let(binds, Box::new(body))
}

fn eval(e: Exp) -> Result<Val, RuntimeError> {
    let proto = compile(&e).expect("program should compile");
    VM::run(proto.code, FUEL).expect("fuel should suffice")
}

fn eval_int(e: Exp) -> i64 {
    eval(e).expect("program should succeed").as_int()
}

fn eval_err(e: Exp) -> RuntimeError {
    match eval(e) {
        Err(err) => err,
        Ok(v) => panic!("expected an error, got {:?}", v),
    }
}

#[test]
fn round_trip_literal() {
    assert_eq!(eval_int(num(5)), 5);
}

#[test]
fn identity_application() {
    assert_eq!(eval_int(app(lam(1, var(0)), vec![num(7)])), 7);
}

#[test]
fn closure_capture_survives_frame_exit() {
    // The binding frame that created the captured value has already
    // returned by the time the closure is applied.
    let closure_maker = let_in(vec![num(10)], lam(0, var(0)));
    assert_eq!(eval_int(app(closure_maker, vec![])), 10);
}

#[test]
fn tail_call_runs_in_bounded_frame_depth() {
    // t = \(self, n). if n == 0 then 0 else self(self, n - 1), with the
    // recursive call in tail position; count down from 100_000.
    let body = cond(
        app(prim(Prim::Equal), vec![var(0), num(0)]),
        num(0),
        app(
            var(1),
            vec![var(1), app(prim(Prim::Sub), vec![var(0), num(1)])],
        ),
    );
    let t = lam(2, body);
    let program = app(t.clone(), vec![t, num(100_000)]);
    let proto = compile(&program).expect("program should compile");
    let mut vm = VM::new(proto.code);
    let mut steps: u64 = 0;
    while !vm.done() {
        vm.step().expect("no fault expected");
        assert!(vm.frames.len() <= 1, "frame stack must stay bounded");
        steps += 1;
        assert!(steps < 100_000_000, "program must finish");
    }
    let v = vm.value().expect("one value expected");
    assert!(matches!(v, Val::Lit(Lit::Int(0))));
}

#[test]
fn nested_closures_capture_transitively() {
    // (\x. \y. x + y) 3 4: the inner lambda reaches x through its
    // captured environment, one frame out.
    let adder = lam(1, lam(1, app(prim(Prim::Add), vec![var(1), var(0)])));
    let e = app(app(adder, vec![num(3)]), vec![num(4)]);
    assert_eq!(eval_int(e), 7);
}

#[test]
fn conditional_selects_then_branch() {
    assert_eq!(eval_int(cond(boolean(true), num(1), num(2))), 1);
}

#[test]
fn conditional_selects_else_branch() {
    assert_eq!(eval_int(cond(boolean(false), num(1), num(2))), 2);
}

#[test]
fn arity_mismatch_is_reported_not_fatal() {
    let e = app(lam(2, var(0)), vec![num(1)]);
    assert_eq!(eval_err(e), RuntimeError::ArityError);
}

#[test]
fn division_by_zero_is_reported() {
    let e = app(prim(Prim::Div), vec![num(1), num(0)]);
    assert_eq!(eval_err(e), RuntimeError::ArithmeticError);
}

#[test]
fn arguments_evaluate_left_to_right() {
    let print_left = app(prim(Prim::Print), vec![text("left")]);
    let print_right = app(prim(Prim::Print), vec![text("right")]);
    let program = app(lam(2, Exp::Lit(Lit::Nil)), vec![print_left, print_right]);
    let proto = compile(&program).expect("program should compile");
    let mut vm = VM::new(proto.code);
    while !vm.done() {
        vm.step().expect("no fault expected");
    }
    assert_eq!(vm.output, vec![String::from("left"), String::from("right")]);
    let v = vm.value().expect("one value expected");
    assert!(matches!(v, Val::Lit(Lit::Nil)));
}

#[test]
fn let_binds_simultaneously_not_sequentially() {
    // The inner let's second binding refers to the enclosing binding
    // (9), not to its sibling (1).
    let e = let_in(
        vec![num(9)],
        let_in(vec![num(1), var(0)], var(0)),
    );
    assert_eq!(eval_int(e), 9);
}

#[test]
fn let_bindings_bind_in_declaration_order() {
    // The first binding is the outermost-addressable local.
    let e = let_in(
        vec![num(1), num(2)],
        app(prim(Prim::Sub), vec![var(1), var(0)]),
    );
    assert_eq!(eval_int(e), -1);
}

#[test]
fn arithmetic_matches_expected_values() {
    assert_eq!(eval_int(app(prim(Prim::Add), vec![num(2), num(3)])), 5);
    assert_eq!(eval_int(app(prim(Prim::Sub), vec![num(2), num(3)])), -1);
    assert_eq!(eval_int(app(prim(Prim::Mul), vec![num(6), num(7)])), 42);
    assert_eq!(eval_int(app(prim(Prim::Div), vec![num(7), num(2)])), 3);
}

#[test]
fn arithmetic_wraps_on_overflow() {
    assert_eq!(
        eval_int(app(prim(Prim::Add), vec![num(i64::MAX), num(1)])),
        i64::MIN
    );
    assert_eq!(
        eval_int(app(prim(Prim::Mul), vec![num(i64::MAX), num(2)])),
        -2
    );
}

#[test]
fn division_truncates_toward_zero() {
    assert_eq!(eval_int(app(prim(Prim::Div), vec![num(-7), num(2)])), -3);
    assert_eq!(eval_int(app(prim(Prim::Div), vec![num(7), num(-2)])), -3);
    assert_eq!(eval_int(app(prim(Prim::Div), vec![num(-7), num(-2)])), 3);
    assert_eq!(
        eval_int(app(prim(Prim::Div), vec![num(i64::MIN), num(-1)])),
        i64::MIN
    );
}

#[test]
fn equality_compares_literals_structurally() {
    let eq = |a: Exp, b: Exp| eval(app(prim(Prim::Equal), vec![a, b]));
    assert!(matches!(
        eq(num(3), num(3)),
        Ok(Val::Lit(Lit::Bool(true)))
    ));
    assert!(matches!(
        eq(num(3), num(4)),
        Ok(Val::Lit(Lit::Bool(false)))
    ));
    assert!(matches!(
        eq(text("a"), text("a")),
        Ok(Val::Lit(Lit::Bool(true)))
    ));
    assert!(matches!(
        eq(text("a"), text("b")),
        Ok(Val::Lit(Lit::Bool(false)))
    ));
    // Different literal kinds are unequal, not an error.
    assert!(matches!(
        eq(num(1), boolean(true)),
        Ok(Val::Lit(Lit::Bool(false)))
    ));
}

#[test]
fn comparing_closures_is_a_type_error() {
    let e = app(
        prim(Prim::Equal),
        vec![lam(0, num(1)), num(1)],
    );
    assert_eq!(eval_err(e), RuntimeError::TypeError);
}

#[test]
fn applying_a_non_callable_value_is_a_type_error() {
    assert_eq!(eval_err(app(num(3), vec![])), RuntimeError::TypeError);
}

#[test]
fn print_requires_a_string() {
    let e = app(prim(Prim::Print), vec![num(1)]);
    assert_eq!(eval_err(e), RuntimeError::TypeError);
}

#[test]
fn primitive_arity_mismatch_is_an_arity_error() {
    let e = app(prim(Prim::Print), vec![text("a"), text("b")]);
    assert_eq!(eval_err(e), RuntimeError::ArityError);
}

#[test]
fn arithmetic_on_non_integers_is_a_type_error() {
    let e = app(prim(Prim::Add), vec![num(1), boolean(true)]);
    assert_eq!(eval_err(e), RuntimeError::TypeError);
}

#[test]
fn truthiness_nil_and_false_only_are_falsy() {
    assert_eq!(eval_int(cond(Exp::Lit(Lit::Nil), num(1), num(2))), 2);
    assert_eq!(eval_int(cond(num(0), num(1), num(2))), 1);
    assert_eq!(eval_int(cond(text(""), num(1), num(2))), 1);
    assert_eq!(eval_int(cond(lam(0, num(1)), num(1), num(2))), 1);
}

#[test]
fn out_of_fuel_reports_no_result() {
    // omega: (\f. f f) (\f. f f) loops forever through tail calls.
    let self_app = lam(1, app(var(0), vec![var(0)]));
    let omega = app(self_app.clone(), vec![self_app]);
    let proto = compile(&omega).expect("program should compile");
    assert!(VM::run(proto.code, 10_000).is_none());
}
