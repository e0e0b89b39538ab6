//! The machine, the environment split, and the compiler's output,
//! exercised piece by piece.

use std::rc::Rc;

use cam::cam::{FrameEnv, Instr, Proto, RuntimeError, Val, VM};
use cam::compile::{compile, CompileError};
use cam::lang::{Exp, Lit, Prim};

fn lit_int(n: i64) -> Val {
    Val::Lit(Lit::Int(n))
}

#[test]
fn prim_arities_are_fixed() {
    assert_eq!(Prim::Equal.arity(), 2);
    assert_eq!(Prim::Add.arity(), 2);
    assert_eq!(Prim::Sub.arity(), 2);
    assert_eq!(Prim::Mul.arity(), 2);
    assert_eq!(Prim::Div.arity(), 2);
    assert_eq!(Prim::Print.arity(), 1);
}

#[test]
fn literal_truthiness() {
    assert!(!Lit::Nil.truthy());
    assert!(!Lit::Bool(false).truthy());
    assert!(Lit::Bool(true).truthy());
    assert!(Lit::Int(0).truthy());
    assert!(Lit::String(String::new()).truthy());
    assert!(Lit::Prim(Prim::Add).truthy());
}

#[test]
fn literal_equality_is_structural() {
    assert!(Lit::Nil.eq_lit(&Lit::Nil));
    assert!(Lit::Int(3).eq_lit(&Lit::Int(3)));
    assert!(!Lit::Int(3).eq_lit(&Lit::Int(4)));
    assert!(Lit::String(String::from("ab")).eq_lit(&Lit::String(String::from("ab"))));
    assert!(!Lit::String(String::from("ab")).eq_lit(&Lit::String(String::from("ba"))));
    assert!(Lit::Prim(Prim::Add).eq_lit(&Lit::Prim(Prim::Add)));
    assert!(!Lit::Prim(Prim::Add).eq_lit(&Lit::Prim(Prim::Sub)));
    assert!(!Lit::Nil.eq_lit(&Lit::Bool(false)));
}

#[test]
fn value_accessors() {
    assert_eq!(lit_int(12).as_int(), 12);
    let s = Val::Lit(Lit::String(String::from("hi")));
    assert_eq!(s.as_string(), "hi");
    assert!(s.truthy());
    assert!(!Val::Lit(Lit::Nil).truthy());
}

#[test]
fn environment_access_prefers_the_unique_suffix() {
    let env = FrameEnv {
        shared: Rc::new(vec![lit_int(1), lit_int(2)]),
        unique: vec![lit_int(3), lit_int(4)],
    };
    // Address 0 is the innermost binding: the end of the suffix.
    assert!(matches!(env.access(0), Some(Val::Lit(Lit::Int(4)))));
    assert!(matches!(env.access(1), Some(Val::Lit(Lit::Int(3)))));
    assert!(matches!(env.access(2), Some(Val::Lit(Lit::Int(2)))));
    assert!(matches!(env.access(3), Some(Val::Lit(Lit::Int(1)))));
    assert!(env.access(4).is_none());
}

#[test]
fn closing_an_environment_freezes_the_suffix() {
    let mut env = FrameEnv {
        shared: Rc::new(vec![lit_int(1)]),
        unique: vec![lit_int(2)],
    };
    let captured = env.close();
    assert_eq!(captured.len(), 2);
    assert!(matches!(captured[0], Val::Lit(Lit::Int(1))));
    assert!(matches!(captured[1], Val::Lit(Lit::Int(2))));
    assert!(env.unique.is_empty());
    // Addressing still sees both values, now in the shared prefix.
    assert!(matches!(env.access(0), Some(Val::Lit(Lit::Int(2)))));
    // Closing again without new bindings reuses the shared buffer.
    let captured_again = env.close();
    assert!(Rc::ptr_eq(&captured, &captured_again));
}

#[test]
fn run_of_raw_code_reports_internal_faults() {
    // An access into an empty environment.
    assert!(matches!(
        VM::run(vec![Instr::Access(0)], 10),
        Some(Err(RuntimeError::InternalInvariantViolation))
    ));
    // Stepping past the end of empty code.
    assert!(matches!(
        VM::run(vec![], 10),
        Some(Err(RuntimeError::InternalInvariantViolation))
    ));
    // A finished program must leave exactly one value.
    assert!(matches!(
        VM::run(
            vec![
                Instr::Push(Lit::Int(1)),
                Instr::Push(Lit::Int(2)),
                Instr::Return,
            ],
            10
        ),
        Some(Err(RuntimeError::InternalInvariantViolation))
    ));
    // An operand-stack underflow in an application.
    assert!(matches!(
        VM::run(vec![Instr::Apply(2)], 10),
        Some(Err(RuntimeError::InternalInvariantViolation))
    ));
}

#[test]
fn stepping_a_finished_machine_is_refused() {
    let mut vm = VM::new(vec![Instr::Push(Lit::Int(1)), Instr::Return]);
    assert!(!vm.done());
    vm.step().expect("push succeeds");
    assert!(vm.done());
    // The top-level Return signals completion; stepping it would pop an
    // empty frame stack.
    assert_eq!(
        vm.step(),
        Err(RuntimeError::InternalInvariantViolation)
    );
    assert!(matches!(vm.value(), Ok(Val::Lit(Lit::Int(1)))));
}

#[test]
fn closure_arity_is_checked_against_the_prototype() {
    let proto = Rc::new(Proto {
        code: vec![Instr::Push(Lit::Int(9)), Instr::Return],
        arity: 2,
    });
    let code = vec![
        Instr::Closure(proto),
        Instr::Push(Lit::Int(1)),
        Instr::Apply(1),
        Instr::Return,
    ];
    assert!(matches!(VM::run(code, 100), Some(Err(RuntimeError::ArityError))));
}

#[test]
fn compiled_literal_is_a_push_and_a_return() {
    let proto = compile(&Exp::Lit(Lit::Int(5))).expect("should compile");
    assert_eq!(proto.arity, 0);
    assert_eq!(proto.code.len(), 2);
    assert!(matches!(proto.code[0], Instr::Push(Lit::Int(5))));
    assert!(matches!(proto.code[1], Instr::Return));
}

#[test]
fn compiled_conditional_backpatches_its_addresses() {
    let e = Exp::If(
        Box::new(Exp::Lit(Lit::Bool(true))),
        Box::new(Exp::Lit(Lit::Int(1))),
        Box::new(Exp::Lit(Lit::Int(2))),
    );
    let proto = compile(&e).expect("should compile");
    assert_eq!(proto.code.len(), 6);
    assert!(matches!(proto.code[0], Instr::Push(Lit::Bool(true))));
    assert!(matches!(proto.code[1], Instr::If(2, 4)));
    assert!(matches!(proto.code[2], Instr::Push(Lit::Int(1))));
    assert!(matches!(proto.code[3], Instr::Jump(5)));
    assert!(matches!(proto.code[4], Instr::Push(Lit::Int(2))));
    assert!(matches!(proto.code[5], Instr::Return));
}

#[test]
fn top_level_application_is_a_tail_call() {
    let e = Exp::App(
        Box::new(Exp::Lam(1, Box::new(Exp::Var(0)))),
        vec![Exp::Lit(Lit::Int(7))],
    );
    let proto = compile(&e).expect("should compile");
    assert_eq!(proto.code.len(), 4);
    assert!(matches!(proto.code[0], Instr::Closure(_)));
    assert!(matches!(proto.code[1], Instr::Push(Lit::Int(7))));
    assert!(matches!(proto.code[2], Instr::TailApply(1)));
    assert!(matches!(proto.code[3], Instr::Return));
}

#[test]
fn conditional_subject_is_not_in_tail_position() {
    // The application in the subject must not be a tail call: its value
    // feeds the branch, it is not the function's result.
    let subject = Exp::App(
        Box::new(Exp::Lam(0, Box::new(Exp::Lit(Lit::Bool(true))))),
        vec![],
    );
    let e = Exp::If(
        Box::new(subject),
        Box::new(Exp::Lit(Lit::Int(1))),
        Box::new(Exp::Lit(Lit::Int(2))),
    );
    let proto = compile(&e).expect("should compile");
    assert!(proto
        .code
        .iter()
        .any(|i| matches!(i, Instr::Apply(0))));
}

#[test]
fn tail_position_passes_through_conditional_branches() {
    // if true then (f) else 2, at top level: the branch application is
    // the program's result, so it compiles as a tail call.
    let call = Exp::App(
        Box::new(Exp::Lam(0, Box::new(Exp::Lit(Lit::Int(1))))),
        vec![],
    );
    let e = Exp::If(
        Box::new(Exp::Lit(Lit::Bool(true))),
        Box::new(call),
        Box::new(Exp::Lit(Lit::Int(2))),
    );
    let proto = compile(&e).expect("should compile");
    assert!(proto
        .code
        .iter()
        .any(|i| matches!(i, Instr::TailApply(0))));
    assert!(!proto
        .code
        .iter()
        .any(|i| matches!(i, Instr::Apply(0))));
}

#[test]
fn branch_address_beyond_the_index_range_is_a_compile_error() {
    // A then-branch of more than 65535 instructions pushes the join
    // address of the conditional out of the representable range.
    let mut args: Vec<Exp> = Vec::new();
    for _ in 0..70_000 {
        args.push(Exp::Lit(Lit::Int(1)));
    }
    let big = Exp::App(Box::new(Exp::Lit(Lit::Nil)), args);
    let e = Exp::If(
        Box::new(Exp::Lit(Lit::Bool(true))),
        Box::new(big),
        Box::new(Exp::Lit(Lit::Int(2))),
    );
    assert!(matches!(compile(&e), Err(CompileError::CompilerAddressError)));
}

#[test]
fn print_writes_to_the_output_sink_exactly_as_given() {
    let e = Exp::App(
        Box::new(Exp::Lit(Lit::Prim(Prim::Print))),
        vec![Exp::Lit(Lit::String(String::from("a b\n")))],
    );
    let proto = compile(&e).expect("should compile");
    let mut vm = VM::new(proto.code);
    while !vm.done() {
        vm.step().expect("no fault expected");
    }
    assert_eq!(vm.output, vec![String::from("a b\n")]);
    assert!(matches!(vm.value(), Ok(Val::Lit(Lit::Nil))));
}

#[test]
fn lambda_body_compiles_into_its_own_prototype() {
    // \x. if x then 1 else 2 — the conditional, with its backpatched
    // addresses, lives inside the nested prototype, which ends in
    // Return.
    let body = Exp::If(
        Box::new(Exp::Var(0)),
        Box::new(Exp::Lit(Lit::Int(1))),
        Box::new(Exp::Lit(Lit::Int(2))),
    );
    let proto = compile(&Exp::Lam(1, Box::new(body))).expect("should compile");
    assert_eq!(proto.code.len(), 2);
    match &proto.code[0] {
        Instr::Closure(inner) => {
            assert_eq!(inner.arity, 1);
            assert_eq!(inner.code.len(), 6);
            assert!(matches!(inner.code[0], Instr::Access(0)));
            assert!(matches!(inner.code[1], Instr::If(2, 4)));
            assert!(matches!(inner.code[3], Instr::Jump(5)));
            assert!(matches!(inner.code[5], Instr::Return));
        }
        other => panic!("expected a closure instruction, got {:?}", other),
    }
    assert!(matches!(proto.code[1], Instr::Return));
}

#[test]
fn let_in_tail_position_is_a_tail_call() {
    // A top-level let is in tail position, so its desugared application
    // replaces the frame instead of suspending it.
    let e = Exp::Let(
        vec![Exp::Lit(Lit::Int(4))],
        Box::new(Exp::Var(0)),
    );
    let proto = compile(&e).expect("should compile");
    assert_eq!(proto.code.len(), 4);
    assert!(matches!(proto.code[0], Instr::Closure(_)));
    assert!(matches!(proto.code[1], Instr::Push(Lit::Int(4))));
    assert!(matches!(proto.code[2], Instr::TailApply(1)));
    assert!(matches!(proto.code[3], Instr::Return));
}
