//! The compiler: lowers a scope-resolved expression into the flat
//! instruction sequence of a prototype, fixing up the jump addresses of
//! conditionals and desugaring simultaneous let into closure
//! application. Tail-position applications become `TailApply`, and
//! tail-position status passes through the branches of a conditional and
//! the body of a let.

use std::rc::Rc;
use vstd::prelude::*;

use crate::cam::{
    instr_view, instrs_view, lemma_instrs_view, lemma_instrs_view_push, lemma_instrs_view_update,
    Instr, InstrV, Proto, ProtoV,
};
use crate::lang::{Arity, Exp};

verus! {

/// The compiler's only failure: a branch or jump target, or a count
/// carried by an instruction, would not fit the bytecode's fixed-width
/// fields. This is a capacity limit, not a semantic error; it is raised
/// at compile time and never at run time.
#[derive(Clone, Copy, Debug, PartialEq, Eq, Structural)]
pub enum CompileError {
    CompilerAddressError,
}

/// The instruction an application in tail position or not compiles to.
pub open spec fn apply_instr(n: int, tail: bool) -> InstrV {
    if tail {
        InstrV::TailApply(n)
    } else {
        InstrV::Apply(n)
    }
}

/// The code one expression compiles to. `base` is the offset at which
/// this code will sit inside the prototype body that owns it — branch
/// and jump targets are absolute offsets into that body. `tail` says
/// whether the expression sits in tail position: its value becomes the
/// enclosing function's result with no further computation after it.
pub open spec fn compile_spec(e: Exp, base: int, tail: bool) -> Seq<InstrV>
    decreases e, 0int,
{
    match e {
        Exp::Lit(l) => seq![InstrV::Push(l@)],
        Exp::Var(a) => seq![InstrV::Access(a as int)],
        Exp::Lam(n, body) => seq![
            InstrV::Closure(ProtoV { code: body_spec(*body), arity: n as int }),
        ],
        Exp::App(f, args) => {
            let fc = compile_spec(*f, base, false);
            let ac = args_spec(args@, base + fc.len());
            fc + ac + seq![apply_instr(args@.len() as int, tail)]
        },
        Exp::If(c, t, el) => {
            let cc = compile_spec(*c, base, false);
            let branch_at = base + cc.len();
            let tc = compile_spec(*t, branch_at + 1, tail);
            let jump_at = branch_at + 1 + tc.len();
            let ec = compile_spec(*el, jump_at + 1, tail);
            let join = jump_at + 1 + ec.len();
            cc + seq![InstrV::If(branch_at + 1, jump_at + 1)] + tc + seq![InstrV::Jump(join)] + ec
        },
        Exp::Let(binds, body) => {
            let ac = args_spec(binds@, base + 1);
            seq![InstrV::Closure(ProtoV { code: body_spec(*body), arity: binds@.len() as int })]
                + ac + seq![apply_instr(binds@.len() as int, tail)]
        },
    }
}

/// The code a row of argument expressions compiles to, left to right,
/// each in the enclosing scope and none in tail position. The
/// left-to-right order is observable through side-effecting primitives.
pub open spec fn args_spec(args: Seq<Exp>, base: int) -> Seq<InstrV>
    decreases args, 0int,
{
    if args.len() == 0 {
        Seq::empty()
    } else {
        let prefix = args_spec(args.drop_last(), base);
        prefix + compile_spec(args.last(), base + prefix.len(), false)
    }
}

/// The whole body of a prototype built from `e`: the expression in tail
/// position, then an explicit `Return`, so that falling off the end of a
/// function's instructions never occurs.
pub open spec fn body_spec(e: Exp) -> Seq<InstrV>
    decreases e, 1int,
{
    compile_spec(e, 0, true).push(InstrV::Return)
}

/// Whether one instruction's fields fit the bytecode's fixed widths:
/// branch and jump targets fit an instruction index, counts fit an
/// arity, and nested prototypes fit throughout.
pub open spec fn instr_fits(i: InstrV) -> bool
    decreases i,
{
    match i {
        InstrV::Access(a) => 0 <= a <= u32::MAX,
        InstrV::Push(_) => true,
        InstrV::Apply(n) => 0 <= n <= u32::MAX,
        InstrV::TailApply(n) => 0 <= n <= u32::MAX,
        InstrV::Closure(p) => 0 <= p.arity <= u32::MAX && code_fits(p.code),
        InstrV::If(t, e) => 0 <= t <= u16::MAX && 0 <= e <= u16::MAX,
        InstrV::Jump(j) => 0 <= j <= u16::MAX,
        InstrV::Return => true,
    }
}

/// Whether every instruction of a body fits; compilation succeeds
/// exactly when the whole compiled program fits.
pub open spec fn code_fits(code: Seq<InstrV>) -> bool
    decreases code,
{
    if code.len() == 0 {
        true
    } else {
        code_fits(code.drop_last()) && instr_fits(code.last())
    }
}

/// A body fits exactly when its two halves fit.
pub proof fn lemma_code_fits_concat(a: Seq<InstrV>, b: Seq<InstrV>)
    ensures
        code_fits(a + b) == (code_fits(a) && code_fits(b)),
    decreases b.len(),
{
    if b.len() == 0 {
        assert(a + b =~= a);
    } else {
        lemma_code_fits_concat(a, b.drop_last());
        assert((a + b).drop_last() =~= a + b.drop_last());
        assert((a + b).last() == b.last());
    }
}

/// A single instruction fits as a body exactly when it fits.
pub proof fn lemma_code_fits_one(i: InstrV)
    ensures
        code_fits(seq![i]) == instr_fits(i),
{
    assert(seq![i].drop_last() =~= Seq::<InstrV>::empty());
    assert(code_fits(Seq::<InstrV>::empty()));
    assert(seq![i].last() == i);
}

/// How the code of an application splits into fitting parts.
pub proof fn lemma_fits_app_shape(fc: Seq<InstrV>, ac: Seq<InstrV>, n: int, tail: bool)
    ensures
        code_fits(fc + ac + seq![apply_instr(n, tail)]) == (code_fits(fc) && code_fits(ac) && 0
            <= n <= u32::MAX),
{
    lemma_code_fits_concat(fc, ac);
    lemma_code_fits_concat(fc + ac, seq![apply_instr(n, tail)]);
    lemma_code_fits_one(apply_instr(n, tail));
}

/// How the code of a let splits into fitting parts.
pub proof fn lemma_fits_let_shape(cl: InstrV, ac: Seq<InstrV>, n: int, tail: bool)
    ensures
        code_fits(seq![cl] + ac + seq![apply_instr(n, tail)]) == (instr_fits(cl) && code_fits(ac)
            && 0 <= n <= u32::MAX),
{
    lemma_code_fits_one(cl);
    lemma_code_fits_concat(seq![cl], ac);
    lemma_code_fits_concat(seq![cl] + ac, seq![apply_instr(n, tail)]);
    lemma_code_fits_one(apply_instr(n, tail));
}

/// How the code of a conditional splits into fitting parts.
pub proof fn lemma_fits_if_shape(
    cc: Seq<InstrV>,
    t0: int,
    e0: int,
    tc: Seq<InstrV>,
    join: int,
    ec: Seq<InstrV>,
)
    ensures
        code_fits(cc + seq![InstrV::If(t0, e0)] + tc + seq![InstrV::Jump(join)] + ec) == (
        code_fits(cc) && 0 <= t0 <= u16::MAX && 0 <= e0 <= u16::MAX && code_fits(tc) && 0 <= join
            <= u16::MAX && code_fits(ec)),
{
    lemma_code_fits_one(InstrV::If(t0, e0));
    lemma_code_fits_one(InstrV::Jump(join));
    lemma_code_fits_concat(cc, seq![InstrV::If(t0, e0)]);
    lemma_code_fits_concat(cc + seq![InstrV::If(t0, e0)], tc);
    lemma_code_fits_concat(cc + seq![InstrV::If(t0, e0)] + tc, seq![InstrV::Jump(join)]);
    lemma_code_fits_concat(
        cc + seq![InstrV::If(t0, e0)] + tc + seq![InstrV::Jump(join)],
        ec,
    );
}

/// One more argument extends the compiled argument row at its end.
pub proof fn lemma_args_spec_snoc(args: Seq<Exp>, k: int, base: int)
    requires
        0 <= k < args.len(),
    ensures
        args_spec(args.subrange(0, k + 1), base) == args_spec(args.subrange(0, k), base)
            + compile_spec(args[k], base + args_spec(args.subrange(0, k), base).len(), false),
{
    assert(args.subrange(0, k + 1).drop_last() =~= args.subrange(0, k));
    assert(args.subrange(0, k + 1).last() == args[k]);
}

/// A compiled argument row whose first `k` entries do not fit does not
/// fit as a whole.
pub proof fn lemma_args_fits_prefix(args: Seq<Exp>, base: int, k: int)
    requires
        0 <= k <= args.len(),
        !code_fits(args_spec(args.subrange(0, k), base)),
    ensures
        !code_fits(args_spec(args, base)),
    decreases args.len() - k,
{
    if k < args.len() {
        lemma_args_spec_snoc(args, k, base);
        lemma_code_fits_concat(
            args_spec(args.subrange(0, k), base),
            compile_spec(args[k], base + args_spec(args.subrange(0, k), base).len(), false),
        );
        lemma_args_fits_prefix(args, base, k + 1);
    } else {
        assert(args.subrange(0, args.len() as int) =~= args);
    }
}

/// The value of any executable instruction fits: its fields are bytecode
/// fields already.
pub proof fn lemma_instr_view_fits(i: Instr)
    ensures
        instr_fits(instr_view(i)),
    decreases i,
{
    match i {
        Instr::Closure(p) => {
            lemma_code_view_fits(p.code@);
        },
        _ => {},
    }
}

/// The value of any executable instruction sequence fits.
pub proof fn lemma_code_view_fits(code: Seq<Instr>)
    ensures
        code_fits(instrs_view(code)),
    decreases code,
{
    if code.len() > 0 {
        lemma_code_view_fits(code.drop_last());
        lemma_instr_view_fits(code.last());
        assert(instrs_view(code).drop_last() =~= instrs_view(code.drop_last()));
        assert(instrs_view(code).last() == instr_view(code.last()));
    }
}

/// The compiler's working state: the instruction buffer of the one
/// prototype body being emitted.
pub struct State {
    pub instrs: Vec<Instr>,
}

impl State {
    /// Append the code for `e` to the buffer. On success exactly the
    /// code `compile_spec` describes was appended; on failure that code
    /// does not fit the bytecode's fixed-width fields, and the buffer
    /// is abandoned.
    #[verifier::loop_isolation(false)]
    #[verifier::rlimit(100)]
    pub fn compile(&mut self, e: &Exp, tail: bool) -> (r: Result<(), CompileError>)
        ensures
            match r {
                Ok(()) => instrs_view(final(self).instrs@) == instrs_view(old(self).instrs@)
                    + compile_spec(*e, old(self).instrs@.len() as int, tail),
                Err(_) => !code_fits(compile_spec(*e, old(self).instrs@.len() as int, tail)),
            },
        decreases *e, 0int,
    {
        let ghost base0 = self.instrs@.len() as int;
        let ghost pre = instrs_view(self.instrs@);
        proof {
            lemma_instrs_view(self.instrs@);
        }
        match e {
            Exp::Lit(l) => {
                let instr = Instr::Push(l.clone());
                proof {
                    lemma_instrs_view_push(self.instrs@, instr);
                }
                self.instrs.push(instr);
                proof {
                    assert(instrs_view(self.instrs@) =~= pre + compile_spec(*e, base0, tail));
                }
                Ok(())
            },
            Exp::Var(a) => {
                let instr = Instr::Access(*a);
                proof {
                    lemma_instrs_view_push(self.instrs@, instr);
                }
                self.instrs.push(instr);
                proof {
                    assert(instrs_view(self.instrs@) =~= pre + compile_spec(*e, base0, tail));
                }
                Ok(())
            },
            Exp::Lam(n, body) => {
                let proto = match compile_body(&**body, *n) {
                    Ok(p) => p,
                    Err(err) => {
                        proof {
                            lemma_code_fits_one(
                                InstrV::Closure(
                                    ProtoV { code: body_spec(**body), arity: *n as int },
                                ),
                            );
                        }
                        return Err(err);
                    },
                };
                let instr = Instr::Closure(Rc::new(proto));
                proof {
                    lemma_instrs_view_push(self.instrs@, instr);
                }
                self.instrs.push(instr);
                proof {
                    assert(instrs_view(self.instrs@) =~= pre + compile_spec(*e, base0, tail));
                }
                Ok(())
            },
            Exp::App(f, args) => {
                match self.compile(&**f, false) {
                    Ok(()) => {},
                    Err(err) => {
                        proof {
                            let fc = compile_spec(**f, base0, false);
                            let ac = args_spec(args@, base0 + fc.len());
                            lemma_fits_app_shape(fc, ac, args@.len() as int, tail);
                            assert(compile_spec(*e, base0, tail) == fc + ac + seq![
                                apply_instr(args@.len() as int, tail),
                            ]);
                        }
                        return Err(err);
                    },
                }
                let ghost fc = compile_spec(**f, base0, false);
                let ghost ab = base0 + fc.len();
                let mut k: usize = 0;
                while k < args.len()
                    invariant
                        k <= args.len(),
                        pre.len() == base0,
                        fc == compile_spec(**f, base0, false),
                        ab == base0 + fc.len(),
                        instrs_view(self.instrs@) == pre + fc + args_spec(
                            args@.subrange(0, k as int),
                            ab,
                        ),
                    decreases args.len() - k,
                {
                    let ghost prefix = args_spec(args@.subrange(0, k as int), ab);
                    proof {
                        lemma_instrs_view(self.instrs@);
                    }
                    match self.compile(&args[k], false) {
                        Ok(()) => {
                            proof {
                                lemma_args_spec_snoc(args@, k as int, ab);
                                assert(instrs_view(self.instrs@) =~= pre + fc + args_spec(
                                    args@.subrange(0, k as int + 1),
                                    ab,
                                ));
                            }
                            k = k + 1;
                        },
                        Err(err) => {
                            proof {
                                lemma_args_spec_snoc(args@, k as int, ab);
                                lemma_code_fits_concat(
                                    prefix,
                                    compile_spec(args@[k as int], ab + prefix.len(), false),
                                );
                                lemma_args_fits_prefix(args@, ab, k as int + 1);
                                lemma_fits_app_shape(
                                    fc,
                                    args_spec(args@, ab),
                                    args@.len() as int,
                                    tail,
                                );
                            }
                            return Err(err);
                        },
                    }
                }
                proof {
                    assert(args@.subrange(0, args@.len() as int) =~= args@);
                }
                if args.len() > (u32::MAX as usize) {
                    proof {
                        lemma_fits_app_shape(fc, args_spec(args@, ab), args@.len() as int, tail);
                    }
                    return Err(CompileError::CompilerAddressError);
                }
                let n32 = args.len() as u32;
                let instr = if tail {
                    Instr::TailApply(n32)
                } else {
                    Instr::Apply(n32)
                };
                proof {
                    lemma_instrs_view_push(self.instrs@, instr);
                }
                self.instrs.push(instr);
                proof {
                    assert(instrs_view(self.instrs@) =~= pre + compile_spec(*e, base0, tail));
                }
                Ok(())
            },
            Exp::If(c, t, el) => {
                let ghost cc = compile_spec(**c, base0, false);
                let ghost tc = compile_spec(**t, base0 + cc.len() + 1, tail);
                let ghost jump_at = base0 + cc.len() + 1 + tc.len();
                let ghost ec = compile_spec(**el, jump_at + 1, tail);
                let ghost join = jump_at + 1 + ec.len();
                match self.compile(&**c, false) {
                    Ok(()) => {},
                    Err(err) => {
                        proof {
                            lemma_fits_if_shape(cc, base0 + cc.len() + 1, jump_at + 1, tc, join, ec);
                            assert(compile_spec(*e, base0, tail) == cc + seq![
                                InstrV::If(base0 + cc.len() + 1, jump_at + 1),
                            ] + tc + seq![InstrV::Jump(join)] + ec);
                        }
                        return Err(err);
                    },
                }
                let if_index = self.instrs.len();
                let placeholder_if = Instr::If(0, 0);
                proof {
                    lemma_instrs_view_push(self.instrs@, placeholder_if);
                }
                self.instrs.push(placeholder_if);
                proof {
                    lemma_instrs_view(self.instrs@);
                }
                match self.compile(&**t, tail) {
                    Ok(()) => {},
                    Err(err) => {
                        proof {
                            lemma_fits_if_shape(cc, base0 + cc.len() + 1, jump_at + 1, tc, join, ec);
                            assert(compile_spec(*e, base0, tail) == cc + seq![
                                InstrV::If(base0 + cc.len() + 1, jump_at + 1),
                            ] + tc + seq![InstrV::Jump(join)] + ec);
                        }
                        return Err(err);
                    },
                }
                let jmp_index = self.instrs.len();
                let placeholder_jmp = Instr::Jump(0);
                proof {
                    lemma_instrs_view_push(self.instrs@, placeholder_jmp);
                }
                self.instrs.push(placeholder_jmp);
                proof {
                    lemma_instrs_view(self.instrs@);
                }
                match self.compile(&**el, tail) {
                    Ok(()) => {},
                    Err(err) => {
                        proof {
                            lemma_fits_if_shape(cc, base0 + cc.len() + 1, jump_at + 1, tc, join, ec);
                            assert(compile_spec(*e, base0, tail) == cc + seq![
                                InstrV::If(base0 + cc.len() + 1, jump_at + 1),
                            ] + tc + seq![InstrV::Jump(join)] + ec);
                        }
                        return Err(err);
                    },
                }
                proof {
                    lemma_instrs_view(self.instrs@);
                }
                let join_index = self.instrs.len();
                let thn_index = if_index + 1;
                let els_index = jmp_index + 1;
                if thn_index > (u16::MAX as usize) || els_index > (u16::MAX as usize) || join_index
                    > (u16::MAX as usize) {
                    proof {
                        lemma_instrs_view(self.instrs@);
                        lemma_fits_if_shape(cc, base0 + cc.len() + 1, jump_at + 1, tc, join, ec);
                    }
                    return Err(CompileError::CompilerAddressError);
                }
                proof {
                    lemma_instrs_view_update(
                        self.instrs@,
                        if_index as int,
                        Instr::If(thn_index as u16, els_index as u16),
                    );
                }
                self.instrs.set(if_index, Instr::If(thn_index as u16, els_index as u16));
                proof {
                    lemma_instrs_view_update(
                        self.instrs@,
                        jmp_index as int,
                        Instr::Jump(join_index as u16),
                    );
                }
                self.instrs.set(jmp_index, Instr::Jump(join_index as u16));
                proof {
                    assert(instrs_view(self.instrs@) =~= pre + compile_spec(*e, base0, tail));
                }
                Ok(())
            },
            Exp::Let(binds, body) => {
                let ghost cl = InstrV::Closure(
                    ProtoV { code: body_spec(**body), arity: binds@.len() as int },
                );
                if binds.len() > (u32::MAX as usize) {
                    proof {
                        lemma_fits_let_shape(
                            cl,
                            args_spec(binds@, base0 + 1),
                            binds@.len() as int,
                            tail,
                        );
                    }
                    return Err(CompileError::CompilerAddressError);
                }
                let proto = match compile_body(&**body, binds.len() as u32) {
                    Ok(p) => p,
                    Err(err) => {
                        proof {
                            lemma_fits_let_shape(
                                cl,
                                args_spec(binds@, base0 + 1),
                                binds@.len() as int,
                                tail,
                            );
                        }
                        return Err(err);
                    },
                };
                let instr = Instr::Closure(Rc::new(proto));
                proof {
                    lemma_instrs_view_push(self.instrs@, instr);
                }
                self.instrs.push(instr);
                let ghost ab = base0 + 1;
                let mut k: usize = 0;
                while k < binds.len()
                    invariant
                        k <= binds.len(),
                        pre.len() == base0,
                        cl == InstrV::Closure(
                            ProtoV { code: body_spec(**body), arity: binds@.len() as int },
                        ),
                        ab == base0 + 1,
                        instrs_view(self.instrs@) == pre + seq![cl] + args_spec(
                            binds@.subrange(0, k as int),
                            ab,
                        ),
                    decreases binds.len() - k,
                {
                    let ghost prefix = args_spec(binds@.subrange(0, k as int), ab);
                    proof {
                        lemma_instrs_view(self.instrs@);
                    }
                    match self.compile(&binds[k], false) {
                        Ok(()) => {
                            proof {
                                lemma_args_spec_snoc(binds@, k as int, ab);
                                assert(instrs_view(self.instrs@) =~= pre + seq![cl] + args_spec(
                                    binds@.subrange(0, k as int + 1),
                                    ab,
                                ));
                            }
                            k = k + 1;
                        },
                        Err(err) => {
                            proof {
                                lemma_args_spec_snoc(binds@, k as int, ab);
                                lemma_code_fits_concat(
                                    prefix,
                                    compile_spec(binds@[k as int], ab + prefix.len(), false),
                                );
                                lemma_args_fits_prefix(binds@, ab, k as int + 1);
                                lemma_fits_let_shape(
                                    cl,
                                    args_spec(binds@, ab),
                                    binds@.len() as int,
                                    tail,
                                );
                            }
                            return Err(err);
                        },
                    }
                }
                proof {
                    assert(binds@.subrange(0, binds@.len() as int) =~= binds@);
                }
                let n32 = binds.len() as u32;
                let instr2 = if tail {
                    Instr::TailApply(n32)
                } else {
                    Instr::Apply(n32)
                };
                proof {
                    lemma_instrs_view_push(self.instrs@, instr2);
                }
                self.instrs.push(instr2);
                proof {
                    assert(instrs_view(self.instrs@) =~= pre + compile_spec(*e, base0, tail));
                }
                Ok(())
            },
        }
    }
}

/// Compile `e` as the whole body of a fresh prototype with the given
/// arity: the expression in tail position, then an explicit `Return`.
pub fn compile_body(e: &Exp, arity: Arity) -> (r: Result<Proto, CompileError>)
    ensures
        r matches Ok(p) ==> p@ == (ProtoV { code: body_spec(*e), arity: arity as int }),
        r is Ok <==> code_fits(body_spec(*e)),
    decreases *e, 1int,
{
    let mut st = State { instrs: Vec::new() };
    match st.compile(e, true) {
        Ok(()) => {},
        Err(err) => {
            proof {
                assert(body_spec(*e).drop_last() =~= compile_spec(*e, 0, true));
            }
            return Err(err);
        },
    }
    proof {
        lemma_instrs_view_push(st.instrs@, Instr::Return);
    }
    st.instrs.push(Instr::Return);
    proof {
        lemma_code_view_fits(st.instrs@);
        assert(instrs_view(st.instrs@) =~= body_spec(*e));
    }
    Ok(Proto { code: st.instrs, arity })
}

/// Compile a whole program: the expression becomes the body of a
/// zero-arity prototype, ready for a top-level run.
pub fn compile(e: &Exp) -> (r: Result<Proto, CompileError>)
    ensures
        r matches Ok(p) ==> p@ == (ProtoV { code: body_spec(*e), arity: 0 }),
        r is Ok <==> code_fits(body_spec(*e)),
{
    compile_body(e, 0)
}

} // verus!
