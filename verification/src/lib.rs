//! A small functional-language runtime: a compiler that lowers a
//! scope-resolved expression tree into linear bytecode, and a stack-based
//! virtual machine that executes that bytecode with first-class closures,
//! simultaneous let-bindings, conditionals, and tail-call elimination.

pub mod cam;
pub mod compile;
pub mod lang;
pub mod laws;
