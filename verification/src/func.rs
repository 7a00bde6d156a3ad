//! Functions: bytecode, constants and argument count.
use vstd::prelude::*;

use crate::val::{Func, Val};


verus! {

/// A binary operation.
#[derive(Copy, Clone, Debug, PartialEq, Eq, Structural)]
pub enum Binop {
    /// Integer addition.
    Add,
    /// Integer subtraction.
    Sub,
    /// Integer multiplication.
    Mul,
    /// Integer division.
    Div,
    /// Equality.
    Eq,
    /// Inequality.
    NotEq,
    /// Less than.
    Lt,
    /// Less than or equal.
    Le,
    /// Greater than.
    Gt,
    /// Greater than or equal.
    Ge,
}

/// A single VM instruction.
#[derive(Copy, Clone, Debug, PartialEq, Eq, Structural)]
pub enum Instruction {
    /// Pop a `Func` from the stack and call it with `n` arguments.
    Eval(u8),
    /// Recursively call the current function with `n` arguments.
    EvalRecursive(u8),
    /// Push a small integer literal onto the stack.
    LoadInt(i8),
    /// Push a constant from the function's constant table onto the stack.
    LoadConst(u8),
    /// Push a local variable (by index into the current stack frame) onto the stack.
    LoadLocal(u8),
    /// Set a local variable (by index into the current stack frame) from the top of the stack.
    SetLocal(u8),
    /// Skip the next `n` instructions if the top of the stack is truthy.
    JumpIf(i8),
    /// Skip the next `n` instructions unconditionally.
    Jump(i8),
    /// Return from the current function.
    Return,
    /// Apply a binary operation to the top two stack values, leaving the result.
    Binop(Binop),
    /// Add a small integer literal to the top-of-stack integer in place.
    AddN(i8),
    /// Replace the top-of-stack integer with a bool: `top < n`.
    LessThan(i8),
    /// Replace the top-of-stack integer with a bool: `top > n`.
    GreaterThan(i8),
    /// Replace the top-of-stack integer with a bool: `top == n`.
    Equal(i8),
    /// Replace the top-of-stack string with its integer length.
    StringLength,
    /// Duplicate the top-of-stack value.
    Dup(u8),
}

/// The bytecode of the recursive Fibonacci function of `make_fib`.
pub open spec fn fib_code() -> Seq<Instruction> {
    seq![
        Instruction::LoadLocal(0),
        Instruction::LessThan(2),
        Instruction::JumpIf(8),
        Instruction::LoadLocal(0),
        Instruction::AddN(-1i8),
        Instruction::EvalRecursive(1),
        Instruction::LoadLocal(0),
        Instruction::AddN(-2i8),
        Instruction::EvalRecursive(1),
        Instruction::Binop(Binop::Add),
        Instruction::Return,
        Instruction::LoadLocal(0),
        Instruction::Return,
    ]
}

/// Register and return a recursive Fibonacci function.
///
/// Implements: `fib(n) = if n < 2 { n } else { fib(n-1) + fib(n-2) }`
pub fn make_fib() -> (v: Val)
    ensures
        v is Func,
        v->Func_0.arity() == 1,
        v->Func_0.code() == fib_code(),
        v->Func_0.consts() == Seq::<Val>::empty(),
{
    // Stack on entry: [n]
    let load_n = Instruction::LoadLocal(0);
    let code = vec![
        load_n,                         //  0: [n, n]
        Instruction::LessThan(2),       //  1: [n, n<2]
        Instruction::JumpIf(8),         //  2: [n]  -- if n<2 jump to 11
        load_n,                         //  3: [n, n]
        Instruction::AddN(-1),          //  4: [n, n-1]
        Instruction::EvalRecursive(1),  //  5: [n, fib(n-1)]
        load_n,                         //  6: [n, fib(n-1), n]
        Instruction::AddN(-2),          //  7: [n, fib(n-1), n-2]
        Instruction::EvalRecursive(1),  //  8: [n, fib(n-1), fib(n-2)]
        Instruction::Binop(Binop::Add), //  9: [n, fib(n-1)+fib(n-2)]
        Instruction::Return,            // 10: return fib(n-1)+fib(n-2)
        load_n,                         // 11: [n, n]  -- base case (n < 2)
        Instruction::Return,            // 12: return n
    ];
    assert(code@ =~= fib_code());
    let f = Func::new(1, code, Vec::new());
    Val::Func(f)
}

} // verus!
