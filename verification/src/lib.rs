//! A stack-based bytecode virtual machine whose execution is specified by a
//! small-step semantics and verified against it.
mod func;
pub mod laws;
pub mod machine;
mod render;
mod trusted;
mod val;
mod vm;

pub use func::{fib_code, make_fib, Binop, Instruction};
pub use vm::{StackFrame, Vm};
pub use val::{Func, NativeFunc, RcString, Symbol, Val, MAX_SYMBOL_LEN};

use vstd::prelude::*;

verus! {

/// Errors that can occur during VM execution.
#[derive(Debug, PartialEq)]
pub enum Error {
    /// A function was called with the wrong number of arguments.
    WrongArgCount { expected: usize, got: usize },
    /// A value had an unexpected type.
    WrongType { expected: &'static str, got: &'static str },
    /// The stack was empty when a value was expected.
    StackUnderflow,
    /// Division by zero.
    DivideByZero,
    /// A symbol was too long.
    SymbolTooLong { len: usize },
    /// The program did not stop within `u128::MAX` steps.
    StepLimitExceeded,
    /// An instruction could not be carried out (an index outside the stack,
    /// the constants or the code, or an integer overflow) after a native
    /// function had returned a value that led there.
    Fault,
}

} // verus!
