//! The value and expression vocabulary shared by the compiler and the
//! virtual machine: literals, the fixed primitive set, and the
//! scope-resolved expression tree that the compiler consumes.

use vstd::prelude::*;

verus! {

/// A lexical address: a variable named by its binding distance from the
/// innermost currently bound variable, where 0 is the most recently bound.
pub type VarIndex = u32;

/// A parameter or argument count.
pub type Arity = u32;

/// The built-in operations, each with a fixed arity.
#[derive(Clone, Copy, Debug, PartialEq, Eq, Structural)]
pub enum Prim {
    Equal,
    Add,
    Sub,
    Mul,
    Div,
    Print,
}

impl Prim {
    /// The number of arguments the operation requires.
    pub open spec fn spec_arity(self) -> Arity {
        match self {
            Prim::Print => 1,
            _ => 2,
        }
    }

    pub fn arity(&self) -> (n: Arity)
        ensures
            n == self.spec_arity(),
    {
        match *self {
            Prim::Print => 1,
            _ => 2,
        }
    }
}

/// A literal value. Literals are immutable and structurally comparable.
#[derive(Debug)]
pub enum Lit {
    Nil,
    Bool(bool),
    Int(i64),
    String(String),
    Prim(Prim),
}

impl Clone for Lit {
    fn clone(&self) -> (res: Self)
        ensures
            res == *self,
    {
        match self {
            Lit::Nil => Lit::Nil,
            Lit::Bool(b) => Lit::Bool(*b),
            Lit::Int(i) => Lit::Int(*i),
            Lit::String(s) => Lit::String(s.clone()),
            Lit::Prim(p) => Lit::Prim(*p),
        }
    }
}

/// The mathematical value of a literal: a string literal is abstracted to
/// its character sequence.
pub enum LitV {
    Nil,
    Bool(bool),
    Int(i64),
    Str(Seq<char>),
    Prim(Prim),
}

impl View for Lit {
    type V = LitV;

    open spec fn view(&self) -> LitV {
        match self {
            Lit::Nil => LitV::Nil,
            Lit::Bool(b) => LitV::Bool(*b),
            Lit::Int(i) => LitV::Int(*i),
            Lit::String(s) => LitV::Str(s@),
            Lit::Prim(p) => LitV::Prim(*p),
        }
    }
}

/// Nil and false are falsy; every other literal is truthy.
pub open spec fn lit_truthy(l: LitV) -> bool {
    !(l is Nil || l == LitV::Bool(false))
}

impl Lit {
    pub fn truthy(&self) -> (b: bool)
        ensures
            b == lit_truthy(self@),
    {
        match *self {
            Lit::Nil => false,
            Lit::Bool(b) => b,
            _ => true,
        }
    }

    /// Structural equality on literals: by value for Nil, booleans,
    /// integers and strings; two primitive literals are equal exactly when
    /// they name the same operation.
    pub fn eq_lit(&self, other: &Lit) -> (r: bool)
        ensures
            r == (self@ == other@),
    {
        match (self, other) {
            (Lit::Nil, Lit::Nil) => true,
            (Lit::Bool(a), Lit::Bool(b)) => *a == *b,
            (Lit::Int(a), Lit::Int(b)) => *a == *b,
            (Lit::String(a), Lit::String(b)) => *a == *b,
            (Lit::Prim(a), Lit::Prim(b)) => *a == *b,
            _ => false,
        }
    }
}

/// A scope-resolved expression: the compiler's input. Variables carry
/// lexical addresses assigned by the (external) resolver; the compiler
/// trusts them and never re-derives them. A `Let` binds its expressions
/// simultaneously: no binding expression sees any sibling binding.
#[derive(Debug)]
pub enum Exp {
    Lit(Lit),
    Var(VarIndex),
    Lam(Arity, Box<Exp>),
    App(Box<Exp>, Vec<Exp>),
    If(Box<Exp>, Box<Exp>, Box<Exp>),
    Let(Vec<Exp>, Box<Exp>),
}

impl Clone for Exp {
    /// A structural copy. Nothing verified consumes it, so it promises
    /// nothing; the compiler reads expressions in place.
    fn clone(&self) -> (res: Self)
        decreases *self, 0int,
    {
        match self {
            Exp::Lit(l) => Exp::Lit(l.clone()),
            Exp::Var(i) => Exp::Var(*i),
            Exp::Lam(n, b) => Exp::Lam(*n, Box::new((&**b).clone())),
            Exp::App(f, args) => Exp::App(Box::new((&**f).clone()), clone_exps(args)),
            Exp::If(c, t, e) => Exp::If(
                Box::new((&**c).clone()),
                Box::new((&**t).clone()),
                Box::new((&**e).clone()),
            ),
            Exp::Let(binds, body) => Exp::Let(clone_exps(binds), Box::new((&**body).clone())),
        }
    }
}

/// A structural copy of a row of expressions, element for element.
fn clone_exps(es: &Vec<Exp>) -> (res: Vec<Exp>)
    decreases es@, 1int,
{
    let mut out: Vec<Exp> = Vec::new();
    let mut k: usize = 0;
    while k < es.len()
        invariant
            k <= es@.len(),
        decreases es@.len() - k,
    {
        out.push((&es[k]).clone());
        k = k + 1;
    }
    out
}

} // verus!
