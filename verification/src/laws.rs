//! What compiled programs do under the machine, proved once for all
//! inputs: round trips of literals, application of closures, branch
//! selection, the error cases owed on bad arities and division by
//! zero, and the left-to-right order of argument effects.

use vstd::prelude::*;

use crate::cam::{
    env_access, env_len, run_spec, step_spec, vm_advanced, vm_done, vm_init, InstrV, ProtoV,
    RuntimeError, StepV, ValV, VmV,
};
use crate::compile::{args_spec, body_spec, compile_spec};
use crate::lang::{lit_truthy, Exp, Lit, LitV, Prim};

verus! {

/// Stepping the machine `n` times: the state reached, or the first
/// fault on the way.
pub open spec fn steps_spec(s: VmV, n: nat) -> StepV
    decreases n,
{
    if n == 0 {
        StepV::Next(s)
    } else {
        match step_spec(s) {
            StepV::Next(s2) => steps_spec(s2, (n - 1) as nat),
            StepV::Fail(e) => StepV::Fail(e),
        }
    }
}

/// Round trip of a literal: compiling `Literal(l)` and running it
/// yields exactly `l`, for every literal, within one machine step.
pub proof fn lemma_literal_round_trip(l: Lit)
    ensures
        run_spec(vm_init(body_spec(Exp::Lit(l))), 1) == Some(
            Ok::<ValV, RuntimeError>(ValV::Lit(l@)),
        ),
{
    let code = body_spec(Exp::Lit(l));
    assert(code =~= seq![InstrV::Push(l@), InstrV::Return]);
    let s0 = vm_init(code);
    assert(!vm_done(s0));
    let st = step_spec(s0);
    assert(st is Next);
    let s1 = st->Next_0;
    assert(s1.stack =~= seq![ValV::Lit(l@)]);
    assert(vm_done(s1));
    assert(run_spec(s1, 0) == Some(Ok::<ValV, RuntimeError>(ValV::Lit(l@))));
    assert(run_spec(s0, 1) == run_spec(s1, 0));
}

/// Division by zero is reported, never a crash: applying the division
/// primitive to any integer and zero runs to `ArithmeticError`.
pub proof fn lemma_division_by_zero(e: Exp, x: i64)
    requires
        e matches Exp::App(f, args) && *f == Exp::Lit(Lit::Prim(Prim::Div)) && args@ == seq![
            Exp::Lit(Lit::Int(x)),
            Exp::Lit(Lit::Int(0)),
        ],
    ensures
        run_spec(vm_init(body_spec(e)), 4) == Some(
            Err::<ValV, RuntimeError>(RuntimeError::ArithmeticError),
        ),
{
    reveal_with_fuel(args_spec, 4);
    reveal_with_fuel(compile_spec, 3);
    let arg_row = seq![Exp::Lit(Lit::Int(x)), Exp::Lit(Lit::Int(0))];
    assert(arg_row.drop_last() =~= seq![Exp::Lit(Lit::Int(x))]);
    assert(seq![Exp::Lit(Lit::Int(x))].drop_last() =~= Seq::<Exp>::empty());
    assert(args_spec(Seq::<Exp>::empty(), 1) =~= Seq::<InstrV>::empty());
    assert(args_spec(seq![Exp::Lit(Lit::Int(x))], 1) =~= seq![InstrV::Push(LitV::Int(x))]);
    assert(args_spec(arg_row, 1) =~= seq![
        InstrV::Push(LitV::Int(x)),
        InstrV::Push(LitV::Int(0)),
    ]);
    assert(compile_spec(*e->App_0, 0, false) =~= seq![InstrV::Push(LitV::Prim(Prim::Div))]);
    assert(compile_spec(e, 0, true) =~= seq![
        InstrV::Push(LitV::Prim(Prim::Div)),
        InstrV::Push(LitV::Int(x)),
        InstrV::Push(LitV::Int(0)),
        InstrV::TailApply(2),
    ]);
    let code = body_spec(e);
    assert(code =~= seq![
        InstrV::Push(LitV::Prim(Prim::Div)),
        InstrV::Push(LitV::Int(x)),
        InstrV::Push(LitV::Int(0)),
        InstrV::TailApply(2),
        InstrV::Return,
    ]);
    let s0 = vm_init(code);
    assert(!vm_done(s0));
    let t1 = step_spec(s0);
    assert(t1 is Next);
    let s1 = t1->Next_0;
    assert(run_spec(s0, 4) == run_spec(s1, 3));
    assert(!vm_done(s1));
    let t2 = step_spec(s1);
    assert(t2 is Next);
    let s2 = t2->Next_0;
    assert(run_spec(s1, 3) == run_spec(s2, 2));
    assert(!vm_done(s2));
    let t3 = step_spec(s2);
    assert(t3 is Next);
    let s3 = t3->Next_0;
    assert(run_spec(s2, 2) == run_spec(s3, 1));
    assert(!vm_done(s3));
    assert(s3.stack =~= seq![
        ValV::Lit(LitV::Prim(Prim::Div)),
        ValV::Lit(LitV::Int(x)),
        ValV::Lit(LitV::Int(0)),
    ]);
    let adv = vm_advanced(s3);
    assert(adv.stack.subrange(1, 3) =~= seq![ValV::Lit(LitV::Int(x)), ValV::Lit(LitV::Int(0))]);
    assert(step_spec(s3) == StepV::Fail(RuntimeError::ArithmeticError));
}

/// An arity mismatch is reported, never a crash: applying a closure of
/// two parameters to a single argument runs to `ArityError`, whatever
/// the function body and the argument are.
pub proof fn lemma_arity_mismatch(e: Exp, l: Lit)
    requires
        e matches Exp::App(f, args) && (*f matches Exp::Lam(n, _) && n == 2) && args@ == seq![
            Exp::Lit(l),
        ],
    ensures
        run_spec(vm_init(body_spec(e)), 3) == Some(
            Err::<ValV, RuntimeError>(RuntimeError::ArityError),
        ),
{
    reveal_with_fuel(args_spec, 4);
    reveal_with_fuel(compile_spec, 3);
    assert(seq![Exp::Lit(l)].drop_last() =~= Seq::<Exp>::empty());
    assert(args_spec(Seq::<Exp>::empty(), 1) =~= Seq::<InstrV>::empty());
    assert(args_spec(seq![Exp::Lit(l)], 1) =~= seq![InstrV::Push(l@)]);
    let lam_f = *e->App_0;
    let cl = InstrV::Closure(ProtoV { code: body_spec(*lam_f->Lam_1), arity: 2 });
    assert(compile_spec(lam_f, 0, false) =~= seq![cl]);
    assert(compile_spec(e, 0, true) =~= seq![cl, InstrV::Push(l@), InstrV::TailApply(1)]);
    let code = body_spec(e);
    assert(code =~= seq![cl, InstrV::Push(l@), InstrV::TailApply(1), InstrV::Return]);
    assert(code.len() == 4);
    assert(code[1] == InstrV::Push(l@));
    assert(code[2] == InstrV::TailApply(1));
    assert(code[3] == InstrV::Return);
    let s0 = vm_init(code);
    assert(!vm_done(s0));
    let t1 = step_spec(s0);
    assert(t1 is Next);
    let s1 = t1->Next_0;
    assert(run_spec(s0, 3) == run_spec(s1, 2));
    assert(!vm_done(s1));
    let t2 = step_spec(s1);
    assert(t2 is Next);
    let s2 = t2->Next_0;
    assert(run_spec(s1, 2) == run_spec(s2, 1));
    assert(!vm_done(s2));
    assert(s2.stack.len() == 2);
    assert(s2.stack[0] matches ValV::Func(g) && g.proto.arity == 2);
    assert(step_spec(s2) == StepV::Fail(RuntimeError::ArityError));
}

/// Branch selection: a conditional on a literal subject yields its
/// then-branch literal exactly when the subject is truthy, and its
/// else-branch literal otherwise, for every choice of the three
/// literals.
pub proof fn lemma_conditional_selects_branch(e: Exp, b: Lit, lt: Lit, le: Lit)
    requires
        e matches Exp::If(c, t, el) && *c == Exp::Lit(b) && *t == Exp::Lit(lt) && *el == Exp::Lit(
            le,
        ),
    ensures
        run_spec(vm_init(body_spec(e)), 4) == Some(
            Ok::<ValV, RuntimeError>(
                ValV::Lit(
                    if lit_truthy(b@) {
                        lt@
                    } else {
                        le@
                    },
                ),
            ),
        ),
{
    reveal_with_fuel(compile_spec, 3);
    assert(compile_spec(*e->If_0, 0, false) =~= seq![InstrV::Push(b@)]);
    assert(compile_spec(*e->If_1, 2, true) =~= seq![InstrV::Push(lt@)]);
    assert(compile_spec(*e->If_2, 4, true) =~= seq![InstrV::Push(le@)]);
    assert(compile_spec(e, 0, true) =~= seq![
        InstrV::Push(b@),
        InstrV::If(2, 4),
        InstrV::Push(lt@),
        InstrV::Jump(5),
        InstrV::Push(le@),
    ]);
    let code = body_spec(e);
    assert(code =~= seq![
        InstrV::Push(b@),
        InstrV::If(2, 4),
        InstrV::Push(lt@),
        InstrV::Jump(5),
        InstrV::Push(le@),
        InstrV::Return,
    ]);
    let s0 = vm_init(code);
    assert(!vm_done(s0));
    let t1 = step_spec(s0);
    assert(t1 is Next);
    let s1 = t1->Next_0;
    assert(run_spec(s0, 4) == run_spec(s1, 3));
    assert(s1.stack =~= seq![ValV::Lit(b@)]);
    assert(!vm_done(s1));
    let t2 = step_spec(s1);
    assert(t2 is Next);
    let s2 = t2->Next_0;
    assert(run_spec(s1, 3) == run_spec(s2, 2));
    assert(s2.stack =~= Seq::<ValV>::empty());
    assert(!vm_done(s2));
    let t3 = step_spec(s2);
    assert(t3 is Next);
    let s3 = t3->Next_0;
    assert(run_spec(s2, 2) == run_spec(s3, 1));
    if lit_truthy(b@) {
        assert(s3.frame.ip == 3);
        assert(s3.stack =~= seq![ValV::Lit(lt@)]);
        assert(!vm_done(s3));
        let t4 = step_spec(s3);
        assert(t4 is Next);
        let s4 = t4->Next_0;
        assert(run_spec(s3, 1) == run_spec(s4, 0));
        assert(vm_done(s4));
        assert(s4.stack =~= seq![ValV::Lit(lt@)]);
    } else {
        assert(s3.frame.ip == 5);
        assert(s3.stack =~= seq![ValV::Lit(le@)]);
        assert(vm_done(s3));
    }
}

/// Identity application: applying a one-parameter closure whose body is
/// its own parameter to any literal yields that literal back.
pub proof fn lemma_identity_application(e: Exp, l: Lit)
    requires
        e matches Exp::App(f, args) && (*f matches Exp::Lam(n, b) && n == 1 && *b == Exp::Var(0))
            && args@ == seq![Exp::Lit(l)],
    ensures
        run_spec(vm_init(body_spec(e)), 4) == Some(
            Ok::<ValV, RuntimeError>(ValV::Lit(l@)),
        ),
{
    reveal_with_fuel(args_spec, 3);
    reveal_with_fuel(compile_spec, 3);
    assert(seq![Exp::Lit(l)].drop_last() =~= Seq::<Exp>::empty());
    assert(args_spec(Seq::<Exp>::empty(), 1) =~= Seq::<InstrV>::empty());
    assert(args_spec(seq![Exp::Lit(l)], 1) =~= seq![InstrV::Push(l@)]);
    let lam_f = *e->App_0;
    assert(body_spec(*lam_f->Lam_1) =~= seq![InstrV::Access(0), InstrV::Return]);
    let pv = ProtoV { code: seq![InstrV::Access(0), InstrV::Return], arity: 1 };
    let cl = InstrV::Closure(pv);
    assert(compile_spec(lam_f, 0, false) =~= seq![cl]);
    let code = body_spec(e);
    assert(code =~= seq![cl, InstrV::Push(l@), InstrV::TailApply(1), InstrV::Return]);
    let s0 = vm_init(code);
    assert(!vm_done(s0));
    let t1 = step_spec(s0);
    assert(t1 is Next);
    let s1 = t1->Next_0;
    assert(run_spec(s0, 4) == run_spec(s1, 3));
    assert(s1.stack.len() == 1);
    assert(s1.stack[0] matches ValV::Func(g) && g.proto == pv && g.env.len() == 0);
    assert(!vm_done(s1));
    let t2 = step_spec(s1);
    assert(t2 is Next);
    let s2 = t2->Next_0;
    assert(run_spec(s1, 3) == run_spec(s2, 2));
    assert(s2.stack.len() == 2);
    assert(s2.stack[1] == ValV::Lit(l@));
    assert(!vm_done(s2));
    let adv = vm_advanced(s2);
    assert(adv.stack.subrange(1, 2) =~= seq![ValV::Lit(l@)]);
    let t3 = step_spec(s2);
    assert(t3 is Next);
    let s3 = t3->Next_0;
    assert(run_spec(s2, 2) == run_spec(s3, 1));
    assert(s3.frame.proto == pv);
    assert(s3.frame.ip == 0);
    assert(s3.frames.len() == 0);
    assert(env_len(s3.frame.env) == 1);
    assert(env_access(s3.frame.env, 0) == ValV::Lit(l@));
    assert(!vm_done(s3));
    let t4 = step_spec(s3);
    assert(t4 is Next);
    let s4 = t4->Next_0;
    assert(run_spec(s3, 1) == run_spec(s4, 0));
    assert(s4.stack =~= seq![ValV::Lit(l@)]);
    assert(vm_done(s4));
}

/// Arguments evaluate left to right, observably: applying a
/// two-parameter function to two printing arguments, the machine's
/// output holds the left argument's string alone after the left
/// argument has been evaluated, and the two strings in order once both
/// have been, whatever the two strings and the function body are.
pub proof fn lemma_argument_order_observable(e: Exp, s1: Seq<char>, s2: Seq<char>)
    requires
        e matches Exp::App(f, args) && (*f matches Exp::Lam(n, _) && n == 2) && args@.len() == 2
            && (args@[0] matches Exp::App(p1, a1) && *p1 == Exp::Lit(Lit::Prim(Prim::Print))
            && a1@.len() == 1 && (a1@[0] matches Exp::Lit(Lit::String(t1)) && t1@ == s1)) && (
        args@[1] matches Exp::App(p2, a2) && *p2 == Exp::Lit(Lit::Prim(Prim::Print)) && a2@.len()
            == 1 && (a2@[0] matches Exp::Lit(Lit::String(t2)) && t2@ == s2)),
    ensures
        steps_spec(vm_init(body_spec(e)), 4) matches StepV::Next(after_left)
            && after_left.output == seq![s1],
        steps_spec(vm_init(body_spec(e)), 7) matches StepV::Next(after_right)
            && after_right.output == seq![s1, s2],
{
    reveal_with_fuel(args_spec, 4);
    reveal_with_fuel(compile_spec, 4);
    let lam_f = *e->App_0;
    let cl = InstrV::Closure(ProtoV { code: body_spec(*lam_f->Lam_1), arity: 2 });
    let args = e->App_1;
    let left = args@[0];
    let right = args@[1];
    assert(args@.drop_last() =~= seq![left]);
    assert(seq![left].drop_last() =~= Seq::<Exp>::empty());
    assert(left->App_1@.drop_last() =~= Seq::<Exp>::empty());
    assert(right->App_1@.drop_last() =~= Seq::<Exp>::empty());
    assert(compile_spec(left, 1, false) =~= seq![
        InstrV::Push(LitV::Prim(Prim::Print)),
        InstrV::Push(LitV::Str(s1)),
        InstrV::Apply(1),
    ]);
    assert(compile_spec(right, 4, false) =~= seq![
        InstrV::Push(LitV::Prim(Prim::Print)),
        InstrV::Push(LitV::Str(s2)),
        InstrV::Apply(1),
    ]);
    assert(args_spec(seq![left], 1) =~= compile_spec(left, 1, false));
    assert(args_spec(args@, 1) =~= compile_spec(left, 1, false) + compile_spec(right, 4, false));
    assert(compile_spec(lam_f, 0, false) =~= seq![cl]);
    let code = body_spec(e);
    assert(code =~= seq![
        cl,
        InstrV::Push(LitV::Prim(Prim::Print)),
        InstrV::Push(LitV::Str(s1)),
        InstrV::Apply(1),
        InstrV::Push(LitV::Prim(Prim::Print)),
        InstrV::Push(LitV::Str(s2)),
        InstrV::Apply(1),
        InstrV::TailApply(2),
        InstrV::Return,
    ]);
    let s0 = vm_init(code);
    let t1s = step_spec(s0);
    assert(t1s is Next);
    let m1 = t1s->Next_0;
    assert(steps_spec(s0, 7) == steps_spec(m1, 6));
    assert(steps_spec(s0, 4) == steps_spec(m1, 3));
    let t2s = step_spec(m1);
    assert(t2s is Next);
    let m2 = t2s->Next_0;
    assert(steps_spec(m1, 6) == steps_spec(m2, 5));
    assert(steps_spec(m1, 3) == steps_spec(m2, 2));
    let t3s = step_spec(m2);
    assert(t3s is Next);
    let m3 = t3s->Next_0;
    assert(steps_spec(m2, 5) == steps_spec(m3, 4));
    assert(steps_spec(m2, 2) == steps_spec(m3, 1));
    assert(m3.stack.len() == 3);
    assert(m3.stack[1] == ValV::Lit(LitV::Prim(Prim::Print)));
    assert(m3.stack[2] == ValV::Lit(LitV::Str(s1)));
    let adv3 = vm_advanced(m3);
    assert(adv3.stack.subrange(2, 3) =~= seq![ValV::Lit(LitV::Str(s1))]);
    let t4s = step_spec(m3);
    assert(t4s is Next);
    let m4 = t4s->Next_0;
    assert(steps_spec(m3, 4) == steps_spec(m4, 3));
    assert(steps_spec(m4, 0) == StepV::Next(m4));
    assert(steps_spec(m3, 1) == StepV::Next(m4));
    assert(m4.output =~= seq![s1]);
    let t5s = step_spec(m4);
    assert(t5s is Next);
    let m5 = t5s->Next_0;
    assert(steps_spec(m4, 3) == steps_spec(m5, 2));
    let t6s = step_spec(m5);
    assert(t6s is Next);
    let m6 = t6s->Next_0;
    assert(steps_spec(m5, 2) == steps_spec(m6, 1));
    assert(m6.stack.len() == 4);
    assert(m6.stack[2] == ValV::Lit(LitV::Prim(Prim::Print)));
    assert(m6.stack[3] == ValV::Lit(LitV::Str(s2)));
    let adv6 = vm_advanced(m6);
    assert(adv6.stack.subrange(3, 4) =~= seq![ValV::Lit(LitV::Str(s2))]);
    let t7s = step_spec(m6);
    assert(t7s is Next);
    let m7 = t7s->Next_0;
    assert(steps_spec(m7, 0) == StepV::Next(m7));
    assert(steps_spec(m6, 1) == StepV::Next(m7));
    assert(m7.output =~= seq![s1, s2]);
}

/// A captured value survives the exit of the frame that bound it:
/// binding any literal, closing over it, returning from the binding
/// frame and only then applying the closure still yields the bound
/// literal.
pub proof fn lemma_capture_survives_frame_exit(e: Exp, l: Lit)
    requires
        e matches Exp::App(f, args) && args@.len() == 0 && (*f matches Exp::Let(binds, body)
            && binds@ == seq![Exp::Lit(l)] && (*body matches Exp::Lam(n, vb) && n == 0 && *vb
            == Exp::Var(0))),
    ensures
        run_spec(vm_init(body_spec(e)), 7) == Some(
            Ok::<ValV, RuntimeError>(ValV::Lit(l@)),
        ),
{
    reveal_with_fuel(args_spec, 4);
    reveal_with_fuel(compile_spec, 4);
    let let_f = *e->App_0;
    let lam_b = *let_f->Let_1;
    assert(body_spec(*lam_b->Lam_1) =~= seq![InstrV::Access(0), InstrV::Return]);
    let pi = ProtoV { code: seq![InstrV::Access(0), InstrV::Return], arity: 0 };
    assert(body_spec(lam_b) =~= seq![InstrV::Closure(pi), InstrV::Return]);
    let pb = ProtoV { code: seq![InstrV::Closure(pi), InstrV::Return], arity: 1 };
    assert(seq![Exp::Lit(l)].drop_last() =~= Seq::<Exp>::empty());
    assert(args_spec(seq![Exp::Lit(l)], 1) =~= seq![InstrV::Push(l@)]);
    assert(e->App_1@ =~= Seq::<Exp>::empty());
    assert(args_spec(e->App_1@, 3) =~= Seq::<InstrV>::empty());
    assert(compile_spec(let_f, 0, false) =~= seq![
        InstrV::Closure(pb),
        InstrV::Push(l@),
        InstrV::Apply(1),
    ]);
    let code = body_spec(e);
    assert(code =~= seq![
        InstrV::Closure(pb),
        InstrV::Push(l@),
        InstrV::Apply(1),
        InstrV::TailApply(0),
        InstrV::Return,
    ]);
    let s0 = vm_init(code);
    assert(!vm_done(s0));
    let t1 = step_spec(s0);
    assert(t1 is Next);
    let m1 = t1->Next_0;
    assert(run_spec(s0, 7) == run_spec(m1, 6));
    assert(m1.stack.len() == 1);
    assert(m1.stack[0] matches ValV::Func(g) && g.proto == pb && g.env.len() == 0);
    assert(!vm_done(m1));
    let t2 = step_spec(m1);
    assert(t2 is Next);
    let m2 = t2->Next_0;
    assert(run_spec(m1, 6) == run_spec(m2, 5));
    assert(m2.stack.len() == 2);
    assert(m2.stack[1] == ValV::Lit(l@));
    assert(!vm_done(m2));
    let adv2 = vm_advanced(m2);
    assert(adv2.stack.subrange(1, 2) =~= seq![ValV::Lit(l@)]);
    let t3 = step_spec(m2);
    assert(t3 is Next);
    let m3 = t3->Next_0;
    assert(run_spec(m2, 5) == run_spec(m3, 4));
    // The binding frame is now active; the caller is suspended.
    assert(m3.frame.proto == pb);
    assert(m3.frames.len() == 1);
    assert(env_len(m3.frame.env) == 1);
    assert(!vm_done(m3));
    let t4 = step_spec(m3);
    assert(t4 is Next);
    let m4 = t4->Next_0;
    assert(run_spec(m3, 4) == run_spec(m4, 3));
    assert(m4.stack.len() == 1);
    assert(m4.stack[0] matches ValV::Func(g) && g.proto == pi && g.env =~= seq![ValV::Lit(l@)]);
    assert(!vm_done(m4));
    let t5 = step_spec(m4);
    assert(t5 is Next);
    let m5 = t5->Next_0;
    assert(run_spec(m4, 3) == run_spec(m5, 2));
    // The binding frame has returned; only its captured values remain.
    assert(m5.frames.len() == 0);
    assert(m5.frame.ip == 3);
    assert(!vm_done(m5));
    let adv5 = vm_advanced(m5);
    assert(adv5.stack.subrange(1, 1) =~= Seq::<ValV>::empty());
    let t6 = step_spec(m5);
    assert(t6 is Next);
    let m6 = t6->Next_0;
    assert(run_spec(m5, 2) == run_spec(m6, 1));
    assert(m6.frame.proto == pi);
    assert(env_len(m6.frame.env) == 1);
    assert(env_access(m6.frame.env, 0) == ValV::Lit(l@));
    assert(!vm_done(m6));
    let t7 = step_spec(m6);
    assert(t7 is Next);
    let m7 = t7->Next_0;
    assert(run_spec(m6, 1) == run_spec(m7, 0));
    assert(m7.stack =~= seq![ValV::Lit(l@)]);
    assert(vm_done(m7));
}

} // verus!
