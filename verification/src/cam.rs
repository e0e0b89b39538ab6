//! The instruction vocabulary and the stack-based virtual machine:
//! operand stack, frame stack, instruction dispatch, and the
//! call/return/tail-call protocol, with first-class closures backed by a
//! shared/unique split environment.

use std::rc::Rc;
use vstd::prelude::*;

use crate::lang::{lit_truthy, Arity, Lit, LitV, Prim, VarIndex};

verus! {

/// An instruction address: an offset into the code of the owning
/// prototype.
pub type InstrIndex = u16;

/// A compiled instruction sequence.
pub type Code = Vec<Instr>;

/// One bytecode instruction.
#[derive(Debug)]
pub enum Instr {
    /// Push the value bound at the given lexical address.
    Access(VarIndex),
    /// Push a literal.
    Push(Lit),
    /// Call the value at depth n below the top of the operand stack,
    /// suspending the current frame.
    Apply(Arity),
    /// As `Apply`, but replace the current frame instead of suspending it.
    TailApply(Arity),
    /// Push a closure over the given prototype and the current
    /// environment.
    Closure(Rc<Proto>),
    /// Pop one value; continue at the first address if it is truthy, at
    /// the second otherwise.
    If(InstrIndex, InstrIndex),
    /// Continue at the given address.
    Jump(InstrIndex),
    /// Return to the most recently suspended frame.
    Return,
}

/// An immutable compiled function body: instructions plus parameter
/// count, independent of any captured environment.
#[derive(Debug)]
pub struct Proto {
    pub code: Vec<Instr>,
    pub arity: Arity,
}

/// A closure: a prototype paired with the captured environment it was
/// created with. The captured sequence is frozen at capture time and may
/// be shared by many closures.
#[derive(Debug)]
pub struct Func {
    pub proto: Rc<Proto>,
    pub env: Rc<Vec<Val>>,
}

impl Clone for Func {
    fn clone(&self) -> (res: Self)
        ensures
            res == *self,
    {
        Func { proto: self.proto.clone(), env: self.env.clone() }
    }
}

/// A run-time value: a literal or a closure.
#[derive(Debug)]
pub enum Val {
    Lit(Lit),
    Func(Func),
}

impl Clone for Val {
    fn clone(&self) -> (res: Self)
        ensures
            res == *self,
    {
        match self {
            Val::Lit(l) => Val::Lit(l.clone()),
            Val::Func(f) => Val::Func(f.clone()),
        }
    }
}

/// The mathematical value of an instruction: addresses and argument
/// counts widen to `int`, and a closure instruction carries the whole
/// prototype it references.
#[verifier::ext_equal]
pub enum InstrV {
    Access(int),
    Push(LitV),
    Apply(int),
    TailApply(int),
    Closure(ProtoV),
    If(int, int),
    Jump(int),
    Return,
}

/// The mathematical value of a prototype.
#[verifier::ext_equal]
pub struct ProtoV {
    pub code: Seq<InstrV>,
    pub arity: int,
}

/// The mathematical value of a run-time value.
#[verifier::ext_equal]
pub enum ValV {
    Lit(LitV),
    Func(FuncV),
}

/// The mathematical value of a closure.
#[verifier::ext_equal]
pub struct FuncV {
    pub proto: ProtoV,
    pub env: Seq<ValV>,
}

/// The mathematical value of one instruction.
pub open spec fn instr_view(i: Instr) -> InstrV
    decreases i,
{
    match i {
        Instr::Access(a) => InstrV::Access(a as int),
        Instr::Push(l) => InstrV::Push(l@),
        Instr::Apply(n) => InstrV::Apply(n as int),
        Instr::TailApply(n) => InstrV::TailApply(n as int),
        Instr::Closure(p) => InstrV::Closure(proto_view(*p)),
        Instr::If(t, e) => InstrV::If(t as int, e as int),
        Instr::Jump(j) => InstrV::Jump(j as int),
        Instr::Return => InstrV::Return,
    }
}

/// The values of an instruction sequence, element by element.
pub open spec fn instrs_view(code: Seq<Instr>) -> Seq<InstrV>
    decreases code,
{
    if code.len() == 0 {
        Seq::empty()
    } else {
        instrs_view(code.drop_last()).push(instr_view(code.last()))
    }
}

/// The mathematical value of a prototype.
pub open spec fn proto_view(p: Proto) -> ProtoV
    decreases p,
{
    ProtoV { code: instrs_view(p.code@), arity: p.arity as int }
}

/// The mathematical value of a run-time value.
pub open spec fn val_view(v: Val) -> ValV
    decreases v,
{
    match v {
        Val::Lit(l) => ValV::Lit(l@),
        Val::Func(f) => ValV::Func(
            FuncV { proto: proto_view(*f.proto), env: vals_view(f.env@) },
        ),
    }
}

/// The values of a sequence of run-time values.
pub open spec fn vals_view(vs: Seq<Val>) -> Seq<ValV>
    decreases vs,
{
    if vs.len() == 0 {
        Seq::empty()
    } else {
        vals_view(vs.drop_last()).push(val_view(vs.last()))
    }
}

impl View for Instr {
    type V = InstrV;

    open spec fn view(&self) -> InstrV {
        instr_view(*self)
    }
}

impl View for Proto {
    type V = ProtoV;

    open spec fn view(&self) -> ProtoV {
        proto_view(*self)
    }
}

impl View for Val {
    type V = ValV;

    open spec fn view(&self) -> ValV {
        val_view(*self)
    }
}

impl View for Func {
    type V = FuncV;

    open spec fn view(&self) -> FuncV {
        FuncV { proto: proto_view(*self.proto), env: vals_view(self.env@) }
    }
}

/// A fault that aborts a run and is reported to the caller. The
/// `InternalInvariantViolation` kind signals a defect in the compiler or
/// the machine itself (stack underflow, an unpatched address, stepping
/// past the end of code), not a condition of the user's program.
#[derive(Clone, Copy, Debug, PartialEq, Eq, Structural)]
pub enum RuntimeError {
    ArityError,
    TypeError,
    ArithmeticError,
    InternalInvariantViolation,
}

/// The mathematical value of a frame's environment: the stack of bound
/// values, split into the frozen shared prefix and the still-private
/// unique suffix.
#[verifier::ext_equal]
pub struct EnvV {
    pub shared: Seq<ValV>,
    pub unique: Seq<ValV>,
}

/// The mathematical value of an active frame.
#[verifier::ext_equal]
pub struct FrameV {
    pub proto: ProtoV,
    pub ip: int,
    pub env: EnvV,
}

/// The mathematical value of the whole machine state.
#[verifier::ext_equal]
pub struct VmV {
    pub stack: Seq<ValV>,
    pub frame: FrameV,
    pub frames: Seq<FrameV>,
    pub output: Seq<Seq<char>>,
}

/// Nil and false are falsy; every other value, closures included, is
/// truthy.
pub open spec fn val_truthy(v: ValV) -> bool {
    match v {
        ValV::Lit(l) => lit_truthy(l),
        ValV::Func(_) => true,
    }
}

/// How many values the environment binds in all.
pub open spec fn env_len(e: EnvV) -> int {
    e.shared.len() + e.unique.len() as int
}

/// The value bound at lexical address `a`: address 0 names the innermost
/// binding, which sits at the end of the unique suffix; addresses past
/// the suffix continue into the shared prefix.
pub open spec fn env_access(e: EnvV, a: int) -> ValV
    recommends
        0 <= a < env_len(e),
{
    if a < e.unique.len() {
        e.unique[e.unique.len() - 1 - a]
    } else {
        e.shared[e.shared.len() - 1 - (a - e.unique.len())]
    }
}

/// Closing an environment freezes the unique suffix onto the shared
/// prefix; the result has nothing private left.
pub open spec fn env_close(e: EnvV) -> EnvV {
    EnvV { shared: e.shared + e.unique, unique: Seq::empty() }
}

/// Truncated (round-toward-zero) 64-bit division. The one overflowing
/// case, `i64::MIN / -1`, wraps to `i64::MIN`.
pub open spec fn div_trunc(x: i64, y: i64) -> i64
    recommends
        y != 0,
{
    if x == i64::MIN && y == -1 {
        i64::MIN
    } else {
        let q: int = if x == 0 {
            0
        } else if x > 0 && y > 0 {
            (x as int) / (y as int)
        } else if x < 0 && y < 0 {
            (x * -1) / (y * -1)
        } else if x < 0 {
            ((x * -1) / (y as int)) * -1
        } else {
            ((x as int) / (y * -1)) * -1
        };
        q as i64
    }
}

/// What a primitive evaluates to on the given argument values: `Equal`
/// compares literals structurally and refuses closures; the arithmetic
/// operations require integer literals, wrap on overflow, and `Div`
/// reports division by zero; `Print` requires a string and evaluates to
/// Nil.
pub open spec fn prim_result(p: Prim, args: Seq<ValV>) -> Result<ValV, RuntimeError>
    recommends
        args.len() == p.spec_arity(),
{
    match p {
        Prim::Equal => match (args[0], args[1]) {
            (ValV::Lit(a), ValV::Lit(b)) => Ok(ValV::Lit(LitV::Bool(a == b))),
            _ => Err(RuntimeError::TypeError),
        },
        Prim::Add => match (args[0], args[1]) {
            (ValV::Lit(LitV::Int(x)), ValV::Lit(LitV::Int(y))) => Ok(
                ValV::Lit(LitV::Int(x.wrapping_add(y))),
            ),
            _ => Err(RuntimeError::TypeError),
        },
        Prim::Sub => match (args[0], args[1]) {
            (ValV::Lit(LitV::Int(x)), ValV::Lit(LitV::Int(y))) => Ok(
                ValV::Lit(LitV::Int(x.wrapping_sub(y))),
            ),
            _ => Err(RuntimeError::TypeError),
        },
        Prim::Mul => match (args[0], args[1]) {
            (ValV::Lit(LitV::Int(x)), ValV::Lit(LitV::Int(y))) => Ok(
                ValV::Lit(LitV::Int(x.wrapping_mul(y))),
            ),
            _ => Err(RuntimeError::TypeError),
        },
        Prim::Div => match (args[0], args[1]) {
            (ValV::Lit(LitV::Int(x)), ValV::Lit(LitV::Int(y))) => if y == 0 {
                Err(RuntimeError::ArithmeticError)
            } else {
                Ok(ValV::Lit(LitV::Int(div_trunc(x, y))))
            },
            _ => Err(RuntimeError::TypeError),
        },
        Prim::Print => match args[0] {
            ValV::Lit(LitV::Str(_)) => Ok(ValV::Lit(LitV::Nil)),
            _ => Err(RuntimeError::TypeError),
        },
    }
}

/// What a primitive appends to the output: `Print` writes its string
/// argument, exactly as given; every other primitive writes nothing.
pub open spec fn prim_output(p: Prim, args: Seq<ValV>, out: Seq<Seq<char>>) -> Seq<Seq<char>>
    recommends
        args.len() == p.spec_arity(),
{
    match p {
        Prim::Print => match args[0] {
            ValV::Lit(LitV::Str(s)) => out.push(s),
            _ => out,
        },
        _ => out,
    }
}

/// The state with the instruction pointer moved past the current
/// instruction, everything else unchanged.
pub open spec fn vm_advanced(s: VmV) -> VmV {
    VmV {
        stack: s.stack,
        frame: FrameV { proto: s.frame.proto, ip: s.frame.ip + 1, env: s.frame.env },
        frames: s.frames,
        output: s.output,
    }
}

/// One step of the machine either yields the next state or fails with an
/// error.
#[verifier::ext_equal]
pub enum StepV {
    Next(VmV),
    Fail(RuntimeError),
}

/// The call protocol, shared by `Apply` and `TailApply`: `s` is the state
/// with the instruction pointer already advanced past the apply
/// instruction. The value at depth `n` below the top of the operand
/// stack is the callee; the `n` values above it are the arguments, in
/// the order they were pushed.
pub open spec fn apply_spec(s: VmV, n: int, tail: bool) -> StepV {
    if s.stack.len() < n + 1 {
        StepV::Fail(RuntimeError::InternalInvariantViolation)
    } else {
        let callee_idx = s.stack.len() - n - 1;
        let args = s.stack.subrange(callee_idx + 1, s.stack.len() as int);
        match s.stack[callee_idx] {
            ValV::Func(f) => if f.proto.arity != n {
                StepV::Fail(RuntimeError::ArityError)
            } else {
                let callee_frame = FrameV {
                    proto: f.proto,
                    ip: 0,
                    env: EnvV { shared: f.env, unique: args },
                };
                StepV::Next(
                    VmV {
                        stack: s.stack.subrange(0, callee_idx),
                        frame: callee_frame,
                        frames: if tail {
                            s.frames
                        } else {
                            s.frames.push(s.frame)
                        },
                        output: s.output,
                    },
                )
            },
            ValV::Lit(LitV::Prim(p)) => if p.spec_arity() != n {
                StepV::Fail(RuntimeError::ArityError)
            } else {
                match prim_result(p, args) {
                    Ok(v) => StepV::Next(
                        VmV {
                            stack: s.stack.subrange(0, callee_idx).push(v),
                            frame: s.frame,
                            frames: s.frames,
                            output: prim_output(p, args, s.output),
                        },
                    ),
                    Err(e) => StepV::Fail(e),
                }
            },
            _ => StepV::Fail(RuntimeError::TypeError),
        }
    }
}

/// One instruction of the machine, as a state transition.
pub open spec fn step_spec(s: VmV) -> StepV {
    if !(0 <= s.frame.ip < s.frame.proto.code.len()) {
        StepV::Fail(RuntimeError::InternalInvariantViolation)
    } else {
        let advanced = vm_advanced(s);
        match s.frame.proto.code[s.frame.ip] {
            InstrV::Access(a) => if 0 <= a < env_len(s.frame.env) {
                StepV::Next(
                    VmV {
                        stack: s.stack.push(env_access(s.frame.env, a)),
                        frame: advanced.frame,
                        frames: s.frames,
                        output: s.output,
                    },
                )
            } else {
                StepV::Fail(RuntimeError::InternalInvariantViolation)
            },
            InstrV::Push(l) => StepV::Next(
                VmV {
                    stack: s.stack.push(ValV::Lit(l)),
                    frame: advanced.frame,
                    frames: s.frames,
                    output: s.output,
                },
            ),
            InstrV::Closure(p) => StepV::Next(
                VmV {
                    stack: s.stack.push(
                        ValV::Func(FuncV { proto: p, env: s.frame.env.shared + s.frame.env.unique }),
                    ),
                    frame: FrameV {
                        proto: s.frame.proto,
                        ip: s.frame.ip + 1,
                        env: env_close(s.frame.env),
                    },
                    frames: s.frames,
                    output: s.output,
                },
            ),
            InstrV::If(t, e) => if s.stack.len() == 0 {
                StepV::Fail(RuntimeError::InternalInvariantViolation)
            } else {
                StepV::Next(
                    VmV {
                        stack: s.stack.drop_last(),
                        frame: FrameV {
                            proto: s.frame.proto,
                            ip: if val_truthy(s.stack.last()) {
                                t
                            } else {
                                e
                            },
                            env: s.frame.env,
                        },
                        frames: s.frames,
                        output: s.output,
                    },
                )
            },
            InstrV::Jump(j) => StepV::Next(
                VmV {
                    stack: s.stack,
                    frame: FrameV { proto: s.frame.proto, ip: j, env: s.frame.env },
                    frames: s.frames,
                    output: s.output,
                },
            ),
            InstrV::Apply(n) => apply_spec(advanced, n, false),
            InstrV::TailApply(n) => apply_spec(advanced, n, true),
            InstrV::Return => if s.frames.len() == 0 {
                StepV::Fail(RuntimeError::InternalInvariantViolation)
            } else {
                StepV::Next(
                    VmV {
                        stack: s.stack,
                        frame: s.frames.last(),
                        frames: s.frames.drop_last(),
                        output: s.output,
                    },
                )
            },
        }
    }
}

/// The machine is finished when no caller is suspended and the
/// instruction about to execute is `Return`.
pub open spec fn vm_done(s: VmV) -> bool {
    s.frames.len() == 0 && 0 <= s.frame.ip < s.frame.proto.code.len()
        && s.frame.proto.code[s.frame.ip] is Return
}

/// The state a top-level evaluation starts from: the code runs as a
/// zero-arity prototype in an empty environment.
pub open spec fn vm_init(code: Seq<InstrV>) -> VmV {
    VmV {
        stack: Seq::empty(),
        frame: FrameV {
            proto: ProtoV { code, arity: 0 },
            ip: 0,
            env: EnvV { shared: Seq::empty(), unique: Seq::empty() },
        },
        frames: Seq::empty(),
        output: Seq::empty(),
    }
}

/// Running the machine for at most `fuel` steps: `None` when the program
/// has not finished within the budget; otherwise the single value left on
/// the operand stack, or the error that aborted the run. A finished run
/// with any other operand-stack depth is an internal invariant violation.
pub open spec fn run_spec(s: VmV, fuel: nat) -> Option<Result<ValV, RuntimeError>>
    decreases fuel,
{
    if vm_done(s) {
        if s.stack.len() == 1 {
            Some(Ok(s.stack[0]))
        } else {
            Some(Err(RuntimeError::InternalInvariantViolation))
        }
    } else if fuel == 0 {
        None
    } else {
        match step_spec(s) {
            StepV::Next(s2) => run_spec(s2, (fuel - 1) as nat),
            StepV::Fail(e) => Some(Err(e)),
        }
    }
}

/// A frame's environment: one conceptual stack of bound values, held as
/// a frozen, shareable prefix (already captured by some closure) and a
/// private suffix (locals of the still-open call, captured by nothing
/// yet). Once promoted to shared, a segment is never mutated or
/// truncated; new bindings only ever extend the unique suffix.
#[derive(Debug)]
pub struct FrameEnv {
    pub shared: Rc<Vec<Val>>,
    pub unique: Vec<Val>,
}

/// One active call: a prototype, the instruction about to execute in it,
/// and the environment its variables live in.
#[derive(Debug)]
pub struct Frame {
    pub proto: Rc<Proto>,
    pub ip: usize,
    pub env: FrameEnv,
}

/// The virtual machine: an operand stack, the current frame, the stack
/// of suspended caller frames, and the sink that `Print` writes to.
#[derive(Debug)]
pub struct VM {
    pub stack: Vec<Val>,
    pub frame: Frame,
    pub frames: Vec<Frame>,
    pub output: Vec<String>,
}

impl View for FrameEnv {
    type V = EnvV;

    open spec fn view(&self) -> EnvV {
        EnvV { shared: vals_view(self.shared@), unique: vals_view(self.unique@) }
    }
}

impl View for Frame {
    type V = FrameV;

    open spec fn view(&self) -> FrameV {
        FrameV { proto: proto_view(*self.proto), ip: self.ip as int, env: self.env@ }
    }
}

/// The values of a sequence of frames.
pub open spec fn frames_view(fs: Seq<Frame>) -> Seq<FrameV> {
    Seq::new(fs.len(), |k: int| fs[k]@)
}

/// The character sequences of a sequence of strings.
pub open spec fn strings_view(ss: Seq<String>) -> Seq<Seq<char>> {
    Seq::new(ss.len(), |k: int| ss[k]@)
}

impl View for VM {
    type V = VmV;

    open spec fn view(&self) -> VmV {
        VmV {
            stack: vals_view(self.stack@),
            frame: self.frame@,
            frames: frames_view(self.frames@),
            output: strings_view(self.output@),
        }
    }
}

impl FrameEnv {
    /// Look a lexical address up: in the unique suffix first, then in
    /// the shared prefix. An address beyond the whole environment is an
    /// internal invariant violation, reported as `None`.
    pub fn access(&self, index: VarIndex) -> (r: Option<Val>)
        ensures
            match r {
                Some(v) => 0 <= index < env_len(self@) && v@ == env_access(self@, index as int),
                None => index >= env_len(self@),
            },
    {
        proof {
            lemma_vals_view(self.unique@);
            lemma_vals_view(self.shared@);
        }
        let idx = index as usize;
        let u_len = self.unique.len();
        if idx < u_len {
            Some(self.unique[u_len - 1 - idx].clone())
        } else {
            let s_len = self.shared.len();
            if idx - u_len < s_len {
                Some(self.shared[s_len - 1 - (idx - u_len)].clone())
            } else {
                None
            }
        }
    }

    /// Freeze the whole current environment into one shared, immutable
    /// buffer and return it. When nothing private is left the existing
    /// buffer is reused without a copy; either way the result is stable
    /// even if this frame's suffix later grows again.
    pub fn close(&mut self) -> (r: Rc<Vec<Val>>)
        ensures
            final(self)@ == env_close(old(self)@),
            vals_view(r@) == old(self)@.shared + old(self)@.unique,
    {
        proof {
            lemma_vals_view(self.unique@);
            lemma_vals_view(self.shared@);
        }
        if self.unique.len() == 0 {
            proof {
                assert(self@ =~= env_close(old(self)@));
                assert(vals_view(self.shared@) =~= old(self)@.shared + old(self)@.unique);
            }
            return self.shared.clone();
        }
        let mut env: Vec<Val> = (*self.shared).clone();
        env.append(&mut self.unique);
        self.shared = Rc::new(env);
        proof {
            lemma_vals_view(self.shared@);
            assert(self@ =~= env_close(old(self)@));
            assert(vals_view(self.shared@) =~= old(self)@.shared + old(self)@.unique);
        }
        self.shared.clone()
    }
}

impl Val {
    /// Nil and false are falsy; every other value, closures included, is
    /// truthy.
    pub fn truthy(&self) -> (b: bool)
        ensures
            b == val_truthy(self@),
    {
        match self {
            Val::Lit(l) => l.truthy(),
            Val::Func(_) => true,
        }
    }

    /// The integer a literal integer value holds.
    pub fn as_int(&self) -> (i: i64)
        requires
            self@ matches ValV::Lit(LitV::Int(_)),
        ensures
            self@ == ValV::Lit(LitV::Int(i)),
    {
        match self {
            Val::Lit(Lit::Int(i)) => *i,
            _ => vstd::pervasive::unreached(),
        }
    }

    /// The characters a literal string value holds.
    pub fn as_string(&self) -> (s: String)
        requires
            self@ matches ValV::Lit(LitV::Str(_)),
        ensures
            self@ == ValV::Lit(LitV::Str(s@)),
    {
        match self {
            Val::Lit(Lit::String(s)) => s.clone(),
            _ => vstd::pervasive::unreached(),
        }
    }
}

/// Truncated 64-bit division, as `div_trunc` describes it.
fn div_i64(x: i64, y: i64) -> (q: i64)
    requires
        y != 0,
    ensures
        q == div_trunc(x, y),
{
    if x == i64::MIN && y == -1 {
        i64::MIN
    } else {
        proof {
            if x > 0 && y > 0 {
                vstd::arithmetic::div_mod::lemma_div_pos_is_pos(x as int, y as int);
                vstd::arithmetic::div_mod::lemma_div_nonincreasing(x as int, y as int);
            } else if x < 0 && y < 0 {
                vstd::arithmetic::div_mod::lemma_div_pos_is_pos(-(x as int), -(y as int));
                vstd::arithmetic::div_mod::lemma_div_nonincreasing(-(x as int), -(y as int));
                if x == i64::MIN {
                    vstd::arithmetic::div_mod::lemma_div_is_ordered_by_denominator(
                        -(x as int),
                        2,
                        -(y as int),
                    );
                }
            } else if x < 0 {
                vstd::arithmetic::div_mod::lemma_div_pos_is_pos(-(x as int), y as int);
                vstd::arithmetic::div_mod::lemma_div_nonincreasing(-(x as int), y as int);
                if x == i64::MIN {
                    vstd::arithmetic::div_mod::lemma_div_is_ordered_by_denominator(
                        -(x as int),
                        1,
                        y as int,
                    );
                }
            } else if x > 0 && y < 0 {
                vstd::arithmetic::div_mod::lemma_div_pos_is_pos(x as int, -(y as int));
                vstd::arithmetic::div_mod::lemma_div_nonincreasing(x as int, -(y as int));
            }
        }
        x.checked_div(y).unwrap()
    }
}

impl VM {
    /// A machine ready to run `code` as a zero-arity top-level program
    /// in an empty environment.
    pub fn new(code: Code) -> (vm: VM)
        ensures
            vm@ == vm_init(instrs_view(code@)),
    {
        let vm = VM {
            stack: Vec::new(),
            frame: Frame {
                proto: Rc::new(Proto { code, arity: 0 }),
                ip: 0,
                env: FrameEnv { shared: Rc::new(Vec::new()), unique: Vec::new() },
            },
            frames: Vec::new(),
            output: Vec::new(),
        };
        proof {
            assert(vm@ =~= vm_init(instrs_view(vm.frame.proto.code@)));
        }
        vm
    }

    /// Whether the machine is finished: no caller is suspended and the
    /// instruction about to execute is `Return`.
    pub fn done(&self) -> (b: bool)
        ensures
            b == vm_done(self@),
    {
        proof {
            lemma_instrs_view(self.frame.proto.code@);
        }
        let ip = self.frame.ip;
        if self.frames.len() != 0 || ip >= self.frame.proto.code.len() {
            return false;
        }
        match &self.frame.proto.code[ip] {
            Instr::Return => true,
            _ => false,
        }
    }

    /// The single value a finished run leaves on the operand stack; any
    /// other operand-stack depth at termination is an internal invariant
    /// violation.
    pub fn value(self) -> (r: Result<Val, RuntimeError>)
        ensures
            match r {
                Ok(v) => self@.stack.len() == 1 && v@ == self@.stack[0],
                Err(e) => e == RuntimeError::InternalInvariantViolation && self@.stack.len() != 1,
            },
    {
        proof {
            lemma_vals_view(self.stack@);
        }
        if self.stack.len() != 1 {
            return Err(RuntimeError::InternalInvariantViolation);
        }
        let mut vm = self;
        match vm.stack.pop() {
            Some(v) => Ok(v),
            None => vstd::pervasive::unreached(),
        }
    }

    /// Evaluate primitive `p` against the argument values above
    /// `func_idx` on the operand stack, replace the callee-and-arguments
    /// span with the single result, and move past the apply
    /// instruction. `Print` appends its argument to the output. No new
    /// frame is involved.
    pub fn prim(&mut self, p: Prim, func_idx: usize) -> (r: Result<(), RuntimeError>)
        requires
            old(self)@.stack.len() == func_idx + 1 + p.spec_arity(),
            old(self).frame.ip < usize::MAX,
        ensures
            ({
                let adv = vm_advanced(old(self)@);
                let args = adv.stack.subrange(func_idx + 1, adv.stack.len() as int);
                match prim_result(p, args) {
                    Ok(v) => r is Ok && final(self)@ == (VmV {
                        stack: adv.stack.subrange(0, func_idx as int).push(v),
                        frame: adv.frame,
                        frames: adv.frames,
                        output: prim_output(p, args, adv.output),
                    }),
                    Err(e) => r == Err::<(), RuntimeError>(e) && final(self)@ == old(self)@,
                }
            }),
    {
        proof {
            vstd::std_specs::vec::axiom_spec_len(&self.stack);
            lemma_vals_view(self.stack@);
        }
        let result: Val = match p {
            Prim::Equal => {
                match (&self.stack[func_idx + 1], &self.stack[func_idx + 2]) {
                    (Val::Lit(la), Val::Lit(lb)) => Val::Lit(Lit::Bool(la.eq_lit(lb))),
                    _ => {
                        return Err(RuntimeError::TypeError);
                    },
                }
            },
            Prim::Add => {
                match (&self.stack[func_idx + 1], &self.stack[func_idx + 2]) {
                    (Val::Lit(Lit::Int(x)), Val::Lit(Lit::Int(y))) => Val::Lit(
                        Lit::Int(x.wrapping_add(*y)),
                    ),
                    _ => {
                        return Err(RuntimeError::TypeError);
                    },
                }
            },
            Prim::Sub => {
                match (&self.stack[func_idx + 1], &self.stack[func_idx + 2]) {
                    (Val::Lit(Lit::Int(x)), Val::Lit(Lit::Int(y))) => Val::Lit(
                        Lit::Int(x.wrapping_sub(*y)),
                    ),
                    _ => {
                        return Err(RuntimeError::TypeError);
                    },
                }
            },
            Prim::Mul => {
                match (&self.stack[func_idx + 1], &self.stack[func_idx + 2]) {
                    (Val::Lit(Lit::Int(x)), Val::Lit(Lit::Int(y))) => Val::Lit(
                        Lit::Int(x.wrapping_mul(*y)),
                    ),
                    _ => {
                        return Err(RuntimeError::TypeError);
                    },
                }
            },
            Prim::Div => {
                match (&self.stack[func_idx + 1], &self.stack[func_idx + 2]) {
                    (Val::Lit(Lit::Int(x)), Val::Lit(Lit::Int(y))) => {
                        if *y == 0 {
                            return Err(RuntimeError::ArithmeticError);
                        }
                        Val::Lit(Lit::Int(div_i64(*x, *y)))
                    },
                    _ => {
                        return Err(RuntimeError::TypeError);
                    },
                }
            },
            Prim::Print => {
                match &self.stack[func_idx + 1] {
                    Val::Lit(Lit::String(s)) => {
                        let line = s.clone();
                        self.output.push(line);
                        Val::Lit(Lit::Nil)
                    },
                    _ => {
                        return Err(RuntimeError::TypeError);
                    },
                }
            },
        };
        self.stack.truncate(func_idx);
        self.stack.push(result);
        self.frame.ip = self.frame.ip + 1;
        proof {
            lemma_vals_view(self.stack@);
            let adv = vm_advanced(old(self)@);
            let args = adv.stack.subrange(func_idx + 1, adv.stack.len() as int);
            assert(self@.stack =~= adv.stack.subrange(0, func_idx as int).push(
                prim_result(p, args)->Ok_0,
            ));
            assert(self@.output =~= prim_output(p, args, adv.output));
            assert(self@ =~= (VmV {
                stack: adv.stack.subrange(0, func_idx as int).push(prim_result(p, args)->Ok_0),
                frame: adv.frame,
                frames: adv.frames,
                output: prim_output(p, args, adv.output),
            }));
        }
        Ok(())
    }

    /// Install a frame for closure `func`, whose arguments are the
    /// `arity` values above `func_idx` on the operand stack, pushed in
    /// order, so that the first argument is the outermost-addressable
    /// new local. The callee and its arguments leave the stack. A
    /// genuine call suspends the current frame; a tail call discards
    /// it, so self-recursion in tail position runs in constant
    /// frame-stack space.
    pub fn call(&mut self, func: Func, arity: Arity, func_idx: usize, tail: bool) -> (r: Result<
        (),
        RuntimeError,
    >)
        requires
            old(self)@.stack.len() == func_idx + 1 + arity,
            old(self).frame.ip < usize::MAX,
            func@.proto.arity == arity as int,
        ensures
            r is Ok,
            final(self)@ == (VmV {
                stack: old(self)@.stack.subrange(0, func_idx as int),
                frame: FrameV {
                    proto: func@.proto,
                    ip: 0,
                    env: EnvV {
                        shared: func@.env,
                        unique: old(self)@.stack.subrange(
                            func_idx + 1,
                            old(self)@.stack.len() as int,
                        ),
                    },
                },
                frames: if tail {
                    old(self)@.frames
                } else {
                    old(self)@.frames.push(vm_advanced(old(self)@).frame)
                },
                output: old(self)@.output,
            }),
    {
        proof {
            vstd::std_specs::vec::axiom_spec_len(&self.stack);
            lemma_vals_view(self.stack@);
        }
        let args = self.stack.split_off(func_idx + 1);
        let _callee = self.stack.pop();
        let mut suspended = Frame {
            proto: func.proto,
            ip: 0,
            env: FrameEnv { shared: func.env, unique: args },
        };
        self.frame.ip = self.frame.ip + 1;
        core::mem::swap(&mut self.frame, &mut suspended);
        if !tail {
            self.frames.push(suspended);
        }
        proof {
            lemma_vals_view(self.stack@);
            lemma_vals_view(self.frame.env.unique@);
            assert(self@.stack =~= old(self)@.stack.subrange(0, func_idx as int));
            assert(self@.frame.env.unique =~= old(self)@.stack.subrange(
                func_idx + 1,
                old(self)@.stack.len() as int,
            ));
            if !tail {
                assert(self@.frames =~= old(self)@.frames.push(vm_advanced(old(self)@).frame));
            } else {
                assert(self@.frames =~= old(self)@.frames);
            }
            assert(self@ =~= (VmV {
                stack: old(self)@.stack.subrange(0, func_idx as int),
                frame: FrameV {
                    proto: func@.proto,
                    ip: 0,
                    env: EnvV {
                        shared: func@.env,
                        unique: old(self)@.stack.subrange(
                            func_idx + 1,
                            old(self)@.stack.len() as int,
                        ),
                    },
                },
                frames: if tail {
                    old(self)@.frames
                } else {
                    old(self)@.frames.push(vm_advanced(old(self)@).frame)
                },
                output: old(self)@.output,
            }));
        }
        Ok(())
    }

    /// Build a closure value over `proto`, closing the current frame's
    /// environment so that the captured values stay stable after this
    /// frame returns or binds further locals.
    pub fn closure(&mut self, proto: &Rc<Proto>) -> (v: Val)
        ensures
            v@ == ValV::Func(
                FuncV {
                    proto: proto@,
                    env: old(self)@.frame.env.shared + old(self)@.frame.env.unique,
                },
            ),
            final(self)@ == (VmV {
                stack: old(self)@.stack,
                frame: FrameV {
                    proto: old(self)@.frame.proto,
                    ip: old(self)@.frame.ip,
                    env: env_close(old(self)@.frame.env),
                },
                frames: old(self)@.frames,
                output: old(self)@.output,
            }),
    {
        let env = self.frame.env.close();
        let v = Val::Func(Func { proto: proto.clone(), env });
        proof {
            assert(self@ =~= (VmV {
                stack: old(self)@.stack,
                frame: FrameV {
                    proto: old(self)@.frame.proto,
                    ip: old(self)@.frame.ip,
                    env: env_close(old(self)@.frame.env),
                },
                frames: old(self)@.frames,
                output: old(self)@.output,
            }));
        }
        v
    }

    /// Resolve and perform an application: the value at depth `arity`
    /// below the top of the operand stack is the callee. A closure gets
    /// a frame; a primitive literal is evaluated in place; anything
    /// else is not callable.
    pub fn apply(&mut self, arity: Arity, tail: bool) -> (r: Result<(), RuntimeError>)
        requires
            old(self).frame.ip < usize::MAX,
        ensures
            match apply_spec(vm_advanced(old(self)@), arity as int, tail) {
                StepV::Next(s2) => r is Ok && final(self)@ == s2,
                StepV::Fail(e) => r == Err::<(), RuntimeError>(e) && final(self)@ == old(self)@,
            },
    {
        proof {
            vstd::std_specs::vec::axiom_spec_len(&self.stack);
            lemma_vals_view(self.stack@);
        }
        let n = arity as usize;
        if self.stack.len() <= n {
            return Err(RuntimeError::InternalInvariantViolation);
        }
        let func_idx = self.stack.len() - 1 - n;
        let callee = self.stack[func_idx].clone();
        match callee {
            Val::Func(f) => {
                if f.proto.arity != arity {
                    return Err(RuntimeError::ArityError);
                }
                self.call(f, arity, func_idx, tail)
            },
            Val::Lit(l) => match l {
                Lit::Prim(p) => {
                    if p.arity() != arity {
                        return Err(RuntimeError::ArityError);
                    }
                    self.prim(p, func_idx)
                },
                _ => Err(RuntimeError::TypeError),
            },
        }
    }

    /// Resume the most recently suspended caller; with none suspended,
    /// a `Return` signals completion of the top-level program and must
    /// not be stepped past.
    pub fn ret(&mut self) -> (r: Result<(), RuntimeError>)
        ensures
            old(self)@.frames.len() == 0 ==> r == Err::<(), RuntimeError>(
                RuntimeError::InternalInvariantViolation,
            ) && final(self)@ == old(self)@,
            old(self)@.frames.len() > 0 ==> r is Ok && final(self)@ == (VmV {
                stack: old(self)@.stack,
                frame: old(self)@.frames.last(),
                frames: old(self)@.frames.drop_last(),
                output: old(self)@.output,
            }),
    {
        match self.frames.pop() {
            Some(f) => {
                self.frame = f;
                proof {
                    assert(final(self)@ =~= (VmV {
                        stack: old(self)@.stack,
                        frame: old(self)@.frames.last(),
                        frames: old(self)@.frames.drop_last(),
                        output: old(self)@.output,
                    }));
                }
                Ok(())
            },
            None => Err(RuntimeError::InternalInvariantViolation),
        }
    }
}

impl VM {
    /// Execute exactly one instruction, as `step_spec` describes it; on
    /// an error the machine is left untouched.
    pub fn step(&mut self) -> (r: Result<(), RuntimeError>)
        ensures
            match step_spec(old(self)@) {
                StepV::Next(s2) => r is Ok && final(self)@ == s2,
                StepV::Fail(e) => r == Err::<(), RuntimeError>(e) && final(self)@ == old(self)@,
            },
    {
        proof {
            vstd::std_specs::vec::axiom_spec_len(&self.frame.proto.code);
            lemma_instrs_view(self.frame.proto.code@);
            lemma_vals_view(self.stack@);
        }
        let ip = self.frame.ip;
        let proto = self.frame.proto.clone();
        if ip >= proto.code.len() {
            return Err(RuntimeError::InternalInvariantViolation);
        }
        match &proto.code[ip] {
            Instr::Access(i) => {
                match self.frame.env.access(*i) {
                    Some(v) => {
                        self.frame.ip = ip + 1;
                        self.stack.push(v);
                        proof {
                            lemma_vals_view(self.stack@);
                            assert(StepV::Next(self@) =~= step_spec(old(self)@));
                        }
                        Ok(())
                    },
                    None => Err(RuntimeError::InternalInvariantViolation),
                }
            },
            Instr::Push(l) => {
                self.frame.ip = ip + 1;
                self.stack.push(Val::Lit(l.clone()));
                proof {
                    lemma_vals_view(self.stack@);
                    assert(StepV::Next(self@) =~= step_spec(old(self)@));
                }
                Ok(())
            },
            Instr::Closure(p) => {
                self.frame.ip = ip + 1;
                let v = self.closure(p);
                proof {
                    lemma_vals_view(self.stack@);
                }
                self.stack.push(v);
                proof {
                    lemma_vals_view(self.stack@);
                    assert(StepV::Next(self@) =~= step_spec(old(self)@));
                }
                Ok(())
            },
            Instr::If(t, e) => {
                match self.stack.pop() {
                    Some(v) => {
                        self.frame.ip = if v.truthy() {
                            *t as usize
                        } else {
                            *e as usize
                        };
                        proof {
                            lemma_vals_view(self.stack@);
                            assert(StepV::Next(self@) =~= step_spec(old(self)@));
                        }
                        Ok(())
                    },
                    None => Err(RuntimeError::InternalInvariantViolation),
                }
            },
            Instr::Jump(j) => {
                self.frame.ip = *j as usize;
                proof {
                    assert(StepV::Next(self@) =~= step_spec(old(self)@));
                }
                Ok(())
            },
            Instr::Apply(n) => self.apply(*n, false),
            Instr::TailApply(n) => self.apply(*n, true),
            Instr::Return => self.ret(),
        }
    }

    /// Run `code` to completion as a top-level program, within a budget
    /// of `fuel` machine steps: `None` when the budget runs out first,
    /// otherwise the final value or the error that aborted the run, as
    /// `run_spec` describes it.
    pub fn run(code: Code, fuel: u64) -> (r: Option<Result<Val, RuntimeError>>)
        ensures
            ({
                let o = run_spec(vm_init(instrs_view(code@)), fuel as nat);
                match r {
                    None => o is None,
                    Some(Ok(v)) => o == Some(Ok::<ValV, RuntimeError>(v@)),
                    Some(Err(e)) => o == Some(Err::<ValV, RuntimeError>(e)),
                }
            }),
    {
        let ghost init = vm_init(instrs_view(code@));
        let mut vm = VM::new(code);
        let mut remaining: u64 = fuel;
        while !vm.done()
            invariant
                init == vm_init(instrs_view(code@)),
                run_spec(init, fuel as nat) == run_spec(vm@, remaining as nat),
                remaining <= fuel,
            decreases remaining,
        {
            if remaining == 0 {
                return None;
            }
            match vm.step() {
                Ok(()) => {},
                Err(e) => {
                    return Some(Err(e));
                },
            }
            remaining = remaining - 1;
        }
        match vm.value() {
            Ok(v) => Some(Ok(v)),
            Err(e) => Some(Err(e)),
        }
    }
}

/// `instrs_view` maps `instr_view` over the sequence, element by element.
pub proof fn lemma_instrs_view(code: Seq<Instr>)
    ensures
        instrs_view(code).len() == code.len(),
        forall|k: int| 0 <= k < code.len() ==> instrs_view(code)[k] == instr_view(code[k]),
    decreases code.len(),
{
    if code.len() > 0 {
        lemma_instrs_view(code.drop_last());
    }
}

/// Tail calls are bounded: a step whose instruction is `TailApply`
/// leaves the suspended-frame stack exactly as it was — the caller's
/// activation record is never retained — so a self-recursive function
/// whose recursive call sits in tail position runs in constant
/// frame-stack depth however deep the recursion.
pub proof fn lemma_tail_call_bounded(s: VmV, s2: VmV)
    requires
        0 <= s.frame.ip < s.frame.proto.code.len(),
        s.frame.proto.code[s.frame.ip] is TailApply,
        step_spec(s) == StepV::Next(s2),
    ensures
        s2.frames == s.frames,
{
}

/// No step grows the suspended-frame stack by more than one frame, and
/// only a genuine (non-tail) `Apply` of a closure grows it at all.
pub proof fn lemma_frame_growth(s: VmV, s2: VmV)
    requires
        step_spec(s) == StepV::Next(s2),
    ensures
        s2.frames.len() <= s.frames.len() + 1,
        s2.frames.len() == s.frames.len() + 1 ==> s.frame.proto.code[s.frame.ip] is Apply,
{
}

/// Appending one instruction appends its value.
pub proof fn lemma_instrs_view_push(code: Seq<Instr>, i: Instr)
    ensures
        instrs_view(code.push(i)) == instrs_view(code).push(instr_view(i)),
{
    assert(code.push(i).drop_last() =~= code);
    assert(code.push(i).last() == i);
}

/// Replacing one instruction replaces its value.
pub proof fn lemma_instrs_view_update(code: Seq<Instr>, k: int, i: Instr)
    requires
        0 <= k < code.len(),
    ensures
        instrs_view(code.update(k, i)) == instrs_view(code).update(k, instr_view(i)),
{
    lemma_instrs_view(code);
    lemma_instrs_view(code.update(k, i));
    assert(instrs_view(code.update(k, i)) =~= instrs_view(code).update(k, instr_view(i)));
}

/// `vals_view` maps `val_view` over the sequence, element by element.
pub proof fn lemma_vals_view(vs: Seq<Val>)
    ensures
        vals_view(vs).len() == vs.len(),
        forall|k: int| 0 <= k < vs.len() ==> vals_view(vs)[k] == val_view(vs[k]),
    decreases vs.len(),
{
    if vs.len() > 0 {
        lemma_vals_view(vs.drop_last());
    }
}

} // verus!
