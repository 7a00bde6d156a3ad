//! The machine's small-step semantics: what one instruction does to the
//! operand stack, the suspended callers and the running frame.
use vstd::prelude::*;

use crate::func::{Binop, Instruction};
use crate::trusted::native_returns;
use crate::val::{truthy, type_name_of, val_equal, Func, NativeFunc, Val};
use crate::Error;

verus! {

/// A function activation: where its locals start on the operand stack, the
/// index of the next instruction to fetch, and the function being run.
pub struct FrameView {
    pub stack_start: int,
    pub ip: int,
    pub func: Func,
}

/// The whole machine: the operand stack, the suspended callers (innermost
/// last) and the running frame.
#[verifier::ext_equal]
pub struct MachineState {
    pub stack: Seq<Val>,
    pub callers: Seq<FrameView>,
    pub frame: FrameView,
}

/// What executing one instruction leads to.
pub enum Step {
    /// The machine keeps running from this state.
    Next(MachineState),
    /// The machine stops with this result.
    Halt(Result<Val, Error>),
    /// A native function is called with the arguments `state.stack[start..]`;
    /// what follows depends on what it returns (see `resume_native`).
    CallNative { native: NativeFunc, start: int, state: MachineState },
    /// The instruction cannot be carried out (an index out of bounds, an
    /// integer overflow).
    Fault,
}

/// Division rounding toward zero, as Rust's `/` on integers does.
pub open spec fn trunc_div(a: int, b: int) -> int {
    let q = (if a >= 0 { a } else { -a }) / (if b >= 0 { b } else { -b });
    if (a < 0) != (b < 0) { -q } else { q }
}

/// Whether `x` is a value of `i64`.
pub open spec fn fits_i64(x: int) -> bool {
    i64::MIN <= x <= i64::MAX
}

/// The result of popping from an empty stack.
pub open spec fn underflow() -> Step {
    Step::Halt(Err(Error::StackUnderflow))
}

/// The result of finding `v` where a value of the `expected` type was needed.
pub open spec fn wrong_type(expected: &'static str, v: Val) -> Step {
    Step::Halt(Err(Error::WrongType { expected: expected, got: type_name_of(v) }))
}

/// The state `s` with a new operand stack.
pub open spec fn with_stack(s: MachineState, stack: Seq<Val>) -> MachineState {
    MachineState { stack: stack, ..s }
}

/// Enter `func` with the arguments `stack[start..]`, suspending the running frame.
pub open spec fn enter(s: MachineState, stack: Seq<Val>, start: int, func: Func) -> Step {
    Step::Next(
        MachineState {
            stack: stack,
            callers: s.callers.push(s.frame),
            frame: FrameView { stack_start: start, ip: 0, func: func },
        },
    )
}

/// Jump `n` instructions forward (or back) from the next instruction. A
/// target outside the code is a fault: the instruction there is fetched at once.
pub open spec fn jump(s: MachineState, stack: Seq<Val>, n: i8) -> Step {
    let target = s.frame.ip + n;
    if target < 0 || target >= s.frame.func.code().len() {
        Step::Fault
    } else {
        Step::Next(
            MachineState {
                stack: stack,
                frame: FrameView { ip: target, ..s.frame },
                ..s
            },
        )
    }
}

/// Replace the top of the (non-empty) stack with `v`.
pub open spec fn replace_top(s: MachineState, v: Val) -> Step {
    Step::Next(with_stack(s, s.stack.drop_last().push(v)))
}

/// An integer operation on the top of the stack: the top must be an integer.
pub open spec fn top_int_op(s: MachineState, op: spec_fn(int) -> Step) -> Step {
    if s.stack.len() == 0 {
        underflow()
    } else {
        match s.stack.last() {
            Val::Int(x) => op(x as int),
            v => wrong_type("Int", v),
        }
    }
}

/// The integer operation `op` on `t` (below) and `a` (on top): its value, or
/// `None` when an arithmetic result does not fit in an `i64`. (`binop`
/// compares any two values for `Eq` and `NotEq` itself, and refuses a
/// division by zero before it gets here.)
pub open spec fn int_result(op: Binop, t: int, a: int) -> Option<Val> {
    let fit = |x: int|
        if fits_i64(x) {
            Some(Val::Int(x as i64))
        } else {
            None
        };
    match op {
        Binop::Add => fit(t + a),
        Binop::Sub => fit(t - a),
        Binop::Mul => fit(t * a),
        Binop::Div => fit(trunc_div(t, a)),
        Binop::Lt => Some(Val::Bool(t < a)),
        Binop::Le => Some(Val::Bool(t <= a)),
        Binop::Gt => Some(Val::Bool(t > a)),
        Binop::Ge => Some(Val::Bool(t >= a)),
        Binop::Eq => Some(Val::Bool(t == a)),
        Binop::NotEq => Some(Val::Bool(t != a)),
    }
}

/// A binary integer operation: `a` was popped, and the new top `t` is combined
/// with it; a result that does not fit in an `i64` is a fault.
pub open spec fn arith(op: Binop, rest: Seq<Val>, s: MachineState, t: int, a: int) -> Step {
    if op is Div && a == 0 {
        Step::Halt(Err(Error::DivideByZero))
    } else {
        match int_result(op, t, a) {
            Some(v) => Step::Next(with_stack(s, rest.push(v))),
            None => Step::Fault,
        }
    }
}

/// `Binop(op)`: pop `a`, then combine the new top with it.
pub open spec fn binop(op: Binop, s: MachineState) -> Step {
    if s.stack.len() == 0 {
        underflow()
    } else {
        let a = s.stack.last();
        let st = s.stack.drop_last();
        if st.len() == 0 {
            underflow()
        } else {
            let top = st.last();
            let rest = st.drop_last();
            match op {
                Binop::Eq => Step::Next(with_stack(s, rest.push(Val::Bool(val_equal(a, top))))),
                Binop::NotEq => Step::Next(
                    with_stack(s, rest.push(Val::Bool(!val_equal(a, top)))),
                ),
                _ => match a {
                    Val::Int(av) => match top {
                        Val::Int(tv) => arith(op, rest, s, tv as int, av as int),
                        _ => wrong_type("Int", top),
                    },
                    _ => wrong_type("Int", a),
                },
            }
        }
    }
}

/// What `instr` does in state `s`, whose frame already points past `instr`.
pub open spec fn exec_instr(instr: Instruction, s: MachineState) -> Step {
    let stack = s.stack;
    let len = stack.len() as int;
    match instr {
        Instruction::Eval(n) => if len == 0 {
            underflow()
        } else {
            let fv = stack.last();
            let st = stack.drop_last();
            if st.len() < n {
                underflow()
            } else {
                let start = st.len() - n;
                match fv {
                    Val::Func(g) => if g.arity() != n as usize {
                        Step::Halt(
                            Err(Error::WrongArgCount { expected: g.arity(), got: n as usize }),
                        )
                    } else {
                        enter(s, st, start, g)
                    },
                    Val::NativeFunc(nf) => Step::CallNative {
                        native: nf,
                        start: start,
                        state: with_stack(s, st),
                    },
                    v => wrong_type("Func", v),
                }
            }
        },
        Instruction::EvalRecursive(n) => if len < n {
            underflow()
        } else {
            let g = s.frame.func;
            if g.arity() != n as usize {
                Step::Halt(Err(Error::WrongArgCount { expected: g.arity(), got: n as usize }))
            } else {
                enter(s, stack, len - n, g)
            }
        },
        Instruction::LoadInt(x) => Step::Next(with_stack(s, stack.push(Val::Int(x as i64)))),
        Instruction::LoadConst(i) => if i < s.frame.func.consts().len() {
            Step::Next(with_stack(s, stack.push(s.frame.func.consts()[i as int])))
        } else {
            Step::Fault
        },
        Instruction::LoadLocal(i) => {
            let idx = s.frame.stack_start + i;
            if 0 <= idx < len {
                Step::Next(with_stack(s, stack.push(stack[idx])))
            } else {
                Step::Fault
            }
        },
        Instruction::SetLocal(i) => if len == 0 {
            underflow()
        } else {
            let v = stack.last();
            let st = stack.drop_last();
            let idx = s.frame.stack_start + i;
            if 0 <= idx < st.len() {
                Step::Next(with_stack(s, st.update(idx, v)))
            } else {
                Step::Fault
            }
        },
        Instruction::JumpIf(n) => if len == 0 {
            underflow()
        } else if truthy(stack.last()) {
            jump(s, stack.drop_last(), n)
        } else {
            Step::Next(with_stack(s, stack.drop_last()))
        },
        Instruction::Jump(n) => jump(s, stack, n),
        Instruction::Return => if len == 0 {
            underflow()
        } else if s.callers.len() == 0 {
            Step::Halt(Ok(stack.last()))
        } else {
            let start = s.frame.stack_start;
            if 0 <= start < len {
                Step::Next(
                    MachineState {
                        stack: stack.subrange(0, start).push(stack.last()),
                        callers: s.callers.drop_last(),
                        frame: s.callers.last(),
                    },
                )
            } else {
                underflow()
            }
        },
        Instruction::Binop(op) => binop(op, s),
        Instruction::AddN(n) => top_int_op(
            s,
            |x: int|
                if fits_i64(x + n) {
                    replace_top(s, Val::Int((x + n) as i64))
                } else {
                    Step::Fault
                },
        ),
        Instruction::LessThan(n) => top_int_op(s, |x: int| replace_top(s, Val::Bool(x < n))),
        Instruction::GreaterThan(n) => top_int_op(s, |x: int| replace_top(s, Val::Bool(x > n))),
        Instruction::Equal(n) => top_int_op(s, |x: int| replace_top(s, Val::Bool(x == n))),
        Instruction::StringLength => if len == 0 {
            underflow()
        } else {
            match stack.last() {
                Val::String(t) => replace_top(
                    s,
                    Val::Int((vstd::utf8::encode_utf8(t@).len() as usize) as i64),
                ),
                Val::Symbol(y) => replace_top(s, Val::Int(y.text_bytes().len() as i64)),
                v => wrong_type("Str or Symbol", v),
            }
        },
        Instruction::Dup(n) => if len == 0 {
            underflow()
        } else {
            let v = stack.last();
            Step::Next(with_stack(s, stack + Seq::new(n as nat, |i: int| v)))
        },
    }
}

/// One step: fetch the instruction the frame points at, move past it, and
/// execute it. Fetching outside the code is a fault.
pub open spec fn step(s: MachineState) -> Step {
    let code = s.frame.func.code();
    let ip = s.frame.ip;
    if 0 <= ip < code.len() {
        exec_instr(
            code[ip],
            MachineState { frame: FrameView { ip: ip + 1, ..s.frame }, ..s },
        )
    } else {
        Step::Fault
    }
}

/// What follows a native call in `state` with arguments from `start`, given
/// what the native function returned: its error stops the machine; its
/// value replaces the arguments.
pub open spec fn resume_native(state: MachineState, start: int, out: Result<Val, Error>) -> Step {
    match out {
        Ok(v) => Step::Next(with_stack(state, state.stack.subrange(0, start).push(v))),
        Err(e) => Step::Halt(Err(e)),
    }
}

/// What a step leads to once `out` is known to be what a native function
/// called in it returned (for a step that calls none, `out` plays no part).
pub open spec fn step_given(s: MachineState, out: Result<Val, Error>) -> Step {
    match step(s) {
        Step::CallNative { native, start, state } => resume_native(state, start, out),
        other => other,
    }
}

/// The arguments of a native function called in `state` from `start`: the
/// values from `start` to the top of the stack.
pub open spec fn native_args(state: MachineState, start: int) -> Seq<Val> {
    state.stack.subrange(start, state.stack.len() as int)
}

/// `out` is a result that the native function called in the step from `s`
/// may return on its arguments (for a step that calls none, any `out` is).
pub open spec fn native_admits(s: MachineState, out: Result<Val, Error>) -> bool {
    match step(s) {
        Step::CallNative { native, start, state } => native_returns(
            native,
            native_args(state, start),
            out,
        ),
        _ => true,
    }
}

/// The result of running from `s` for at most `fuel` steps, where the `k`-th
/// native call (counting from `k0`) returns `natives(k)`: `None` when some
/// native function cannot return what `natives` says it does,
/// `Err(StepLimitExceeded)` when the machine is still running after `fuel`
/// steps, and `Err(Fault)` when it reaches a fault.
pub open spec fn run(
    s: MachineState,
    fuel: nat,
    natives: spec_fn(nat) -> Result<Val, Error>,
    k0: nat,
) -> Option<Result<Val, Error>>
    decreases fuel,
{
    if fuel == 0 {
        Some(Err(Error::StepLimitExceeded))
    } else if !native_admits(s, natives(k0)) {
        None
    } else {
        let calls = if step(s) is CallNative { 1nat } else { 0nat };
        match step_given(s, natives(k0)) {
            Step::Next(t) => run(t, (fuel - 1) as nat, natives, k0 + calls),
            Step::Halt(x) => Some(x),
            _ => Some(Err(Error::Fault)),
        }
    }
}

/// Running from `s` for `k` steps, stopping early at the first step that is
/// not `Next` (a halt, a native call or a fault), which is then the result.
pub open spec fn run_det(s: MachineState, k: nat) -> Step
    decreases k,
{
    if k == 0 {
        Step::Next(s)
    } else {
        match step(s) {
            Step::Next(t) => run_det(t, (k - 1) as nat),
            other => other,
        }
    }
}

/// The state in which a call of `f` with `args` starts.
pub open spec fn initial_state(f: Func, args: Seq<Val>) -> MachineState {
    MachineState {
        stack: args,
        callers: Seq::empty(),
        frame: FrameView { stack_start: 0, ip: 0, func: f },
    }
}

/// The step budget of a run.
pub open spec fn step_budget() -> nat {
    u128::MAX as nat
}

/// The machine, started in `s`, does not reach a fault before it calls a
/// native function: what it does up to then depends on the program alone.
pub open spec fn no_early_fault(s: MachineState) -> bool {
    forall|k: nat| !(#[trigger] run_det(s, k) is Fault)
}

/// Some run from `s` within the step budget, in which every native function
/// returns a result that it may return on its arguments, ends with `r`.
pub open spec fn can_return(s: MachineState, r: Result<Val, Error>) -> bool {
    exists|natives: spec_fn(nat) -> Result<Val, Error>|
        #[trigger] run(s, step_budget(), natives, 0) == Some(r)
}

/// `natives` starts with the results in `got`.
pub open spec fn extends(natives: spec_fn(nat) -> Result<Val, Error>, got: Seq<Result<Val, Error>>) -> bool {
    forall|i: nat| i < got.len() ==> natives(i) == got[i as int]
}

/// Taking `a` deterministic steps and then `b` more is taking `a + b` steps.
pub proof fn lemma_run_det_compose(s: MachineState, a: nat, b: nat)
    requires
        run_det(s, a) is Next,
    ensures
        run_det(s, a + b) == run_det(run_det(s, a)->Next_0, b),
    decreases a,
{
    if a > 0 {
        match step(s) {
            Step::Next(t) => lemma_run_det_compose(t, (a - 1) as nat, b),
            _ => {},
        }
    }
}

/// A run that halts within `k` deterministic steps has that result whatever
/// native functions return and whatever the budget beyond `k`.
pub proof fn lemma_halting_run(
    s: MachineState,
    k: nat,
    x: Result<Val, Error>,
    fuel: nat,
    natives: spec_fn(nat) -> Result<Val, Error>,
    k0: nat,
)
    requires
        run_det(s, k) == Step::Halt(x),
        k <= fuel,
    ensures
        run(s, fuel, natives, k0) == Some(x),
    decreases k,
{
    match step(s) {
        Step::Next(t) => lemma_halting_run(t, (k - 1) as nat, x, (fuel - 1) as nat, natives, k0),
        _ => {},
    }
}

/// Once a deterministic run has stopped, taking more steps changes nothing.
pub proof fn lemma_run_det_stable(s: MachineState, j: nat, k: nat)
    requires
        j <= k,
        !(run_det(s, j) is Next),
    ensures
        run_det(s, k) == run_det(s, j),
    decreases j,
{
    if j > 0 {
        match step(s) {
            Step::Next(t) => lemma_run_det_stable(t, (j - 1) as nat, (k - 1) as nat),
            _ => {},
        }
    }
}

/// A run still going after `fuel` deterministic steps exhausts its budget.
pub proof fn lemma_run_out_of_fuel(
    s: MachineState,
    fuel: nat,
    natives: spec_fn(nat) -> Result<Val, Error>,
    k0: nat,
)
    requires
        run_det(s, fuel) is Next,
    ensures
        run(s, fuel, natives, k0) == Some(Err::<Val, Error>(Error::StepLimitExceeded)),
    decreases fuel,
{
    if fuel > 0 {
        match step(s) {
            Step::Next(t) => lemma_run_out_of_fuel(t, (fuel - 1) as nat, natives, k0),
            _ => {},
        }
    }
}

/// A run that halts with `x` after `k` deterministic steps, started with a
/// budget of `fuel` steps, ends with `x`, or runs out of budget when `k`
/// exceeds it.
pub proof fn lemma_deterministic_result(
    s: MachineState,
    k: nat,
    x: Result<Val, Error>,
    fuel: nat,
    natives: spec_fn(nat) -> Result<Val, Error>,
    k0: nat,
)
    requires
        run_det(s, k) == Step::Halt(x),
    ensures
        run(s, fuel, natives, k0) == Some(x) || (k > fuel && run(s, fuel, natives, k0) == Some(
            Err::<Val, Error>(Error::StepLimitExceeded),
        )),
        k <= fuel ==> run(s, fuel, natives, k0) == Some(x),
{
    if k <= fuel {
        lemma_halting_run(s, k, x, fuel, natives, k0);
    } else if run_det(s, fuel) is Next {
        lemma_run_out_of_fuel(s, fuel, natives, k0);
    } else {
        lemma_run_det_stable(s, fuel, k);
        lemma_halting_run(s, fuel, x, fuel, natives, k0);
    }
}

/// A machine that halts within some number of deterministic steps reaches
/// no fault before it does.
pub proof fn lemma_halting_no_early_fault(s: MachineState, j: nat, x: Result<Val, Error>)
    requires
        run_det(s, j) == Step::Halt(x),
    ensures
        no_early_fault(s),
{
    assert forall|k: nat| !(#[trigger] run_det(s, k) is Fault) by {
        if k <= j {
            if !(run_det(s, k) is Next) {
                lemma_run_det_stable(s, k, j);
            }
        } else {
            lemma_run_det_stable(s, j, k);
        }
    }
}

} // verus!
