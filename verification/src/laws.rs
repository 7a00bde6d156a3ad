//! Properties of the library as a whole, proved from the contracts of its parts.
use vstd::prelude::*;

use crate::func::{fib_code, Binop, Instruction};
use crate::machine::{
    can_return, exec_instr, initial_state, lemma_deterministic_result, lemma_halting_no_early_fault,
    lemma_run_det_compose, lemma_run_out_of_fuel, native_args, no_early_fault, resume_native, run,
    run_det, step, step_budget, trunc_div, with_stack, FrameView, MachineState, Step,
};
use crate::val::{type_name_of, val_equal, trim_nul, zero_padded, zeros, Func, RcString, Symbol, Val, MAX_SYMBOL_LEN};
use crate::Error;

verus! {

/// The Fibonacci numbers, continued below 2 by `fib(n) = n`.
pub open spec fn fib(n: int) -> int
    decreases n,
{
    if n < 2 {
        n
    } else {
        fib(n - 1) + fib(n - 2)
    }
}

/// The number of steps the function of `make_fib` takes on `n` before it
/// executes its last `Return`.
pub open spec fn fib_steps(n: int) -> nat
    decreases n,
{
    if n < 2 {
        4
    } else {
        fib_steps(n - 1) + fib_steps(n - 2) + 12
    }
}

/// `f` is the function that `make_fib` returns.
pub open spec fn is_fib_func(f: Func) -> bool {
    f.arity() == 1 && f.code() == fib_code()
}

/// The Fibonacci numbers grow from 0.
pub proof fn lemma_fib_monotonic(j: int, k: int)
    requires
        0 <= j <= k,
    ensures
        0 <= fib(j) <= fib(k),
    decreases k,
{
    if k >= 2 {
        lemma_fib_monotonic(0, k - 1);
        lemma_fib_monotonic(0, k - 2);
        if j < k {
            lemma_fib_monotonic(j, k - 1);
        }
    }
}

/// One step that keeps the machine running, as a deterministic run of one step.
proof fn lemma_one_step(s: MachineState, t: MachineState)
    requires
        step(s) == Step::Next(t),
    ensures
        run_det(s, 1) == Step::Next(t),
{
    assert(run_det(t, 0) == Step::Next(t));
}

/// Chain a run of `a` steps from `s` to `t` with a run of `b` steps from `t`.
proof fn lemma_chain(s: MachineState, a: nat, t: MachineState, b: nat, u: MachineState)
    requires
        run_det(s, a) == Step::Next(t),
        run_det(t, b) == Step::Next(u),
    ensures
        run_det(s, a + b) == Step::Next(u),
{
    lemma_run_det_compose(s, a, b);
}

/// A call of the Fibonacci function on `n`, entered with `n` on top of the
/// stack, reaches its last `Return` with `fib(n)` pushed above `n`, its
/// frame and the callers otherwise untouched.
proof fn lemma_fib_call(s: MachineState, n: i64)
    requires
        is_fib_func(s.frame.func),
        s.frame.ip == 0,
        s.stack.len() >= 1,
        s.frame.stack_start == s.stack.len() - 1,
        s.stack.last() == Val::Int(n),
        fib(n as int) <= i64::MAX,
    ensures
        run_det(s, fib_steps(n as int)) == Step::Next(
            MachineState {
                stack: s.stack.push(Val::Int(fib(n as int) as i64)),
                callers: s.callers,
                frame: FrameView { ip: if n < 2 { 12 } else { 10 }, ..s.frame },
            },
        ),
    decreases n,
{
    let st = s.stack;
    let fr = s.frame;
    let at = |ip: int, stack: Seq<Val>| MachineState {
        stack: stack,
        callers: s.callers,
        frame: FrameView { ip: ip, ..fr },
    };
    let s1 = at(1, st.push(Val::Int(n)));
    assert(step(s) == Step::Next(s1));
    lemma_one_step(s, s1);
    let s2 = at(2, st.push(Val::Bool(n < 2)));
    assert(s1.stack.drop_last() =~= st);
    assert(step(s1) == Step::Next(s2));
    lemma_one_step(s1, s2);
    lemma_chain(s, 1, s1, 1, s2);
    if n < 2 {
        let s3 = at(11, st);
        assert(s2.stack.drop_last() =~= st);
        assert(step(s2) == Step::Next(s3));
        lemma_one_step(s2, s3);
        lemma_chain(s, 2, s2, 1, s3);
        let s4 = at(12, st.push(Val::Int(n)));
        assert(step(s3) == Step::Next(s4));
        lemma_one_step(s3, s4);
        lemma_chain(s, 3, s3, 1, s4);
    } else {
        let f1 = fib(n - 1);
        let f2 = fib(n - 2);
        lemma_fib_monotonic(n - 1, n as int);
        lemma_fib_monotonic(n - 2, n as int);
        let v1 = Val::Int(f1 as i64);
        let v2 = Val::Int(f2 as i64);
        let s3 = at(3, st);
        assert(s2.stack.drop_last() =~= st);
        assert(step(s2) == Step::Next(s3));
        lemma_one_step(s2, s3);
        lemma_chain(s, 2, s2, 1, s3);
        let s4 = at(4, st.push(Val::Int(n)));
        assert(step(s3) == Step::Next(s4));
        lemma_one_step(s3, s4);
        lemma_chain(s, 3, s3, 1, s4);
        let s5 = at(5, st.push(Val::Int((n - 1) as i64)));
        assert(s4.stack.drop_last() =~= st);
        assert(step(s4) == Step::Next(s5));
        lemma_one_step(s4, s5);
        lemma_chain(s, 4, s4, 1, s5);
        let s6 = MachineState {
            stack: s5.stack,
            callers: s.callers.push(FrameView { ip: 6, ..fr }),
            frame: FrameView { stack_start: st.len() as int, ip: 0, func: fr.func },
        };
        assert(step(s5) == Step::Next(s6));
        lemma_one_step(s5, s6);
        lemma_chain(s, 5, s5, 1, s6);
        // the first recursive call
        lemma_fib_call(s6, (n - 1) as i64);
        let u6 = MachineState {
            stack: s6.stack.push(v1),
            callers: s6.callers,
            frame: FrameView { ip: if n - 1 < 2 { 12 } else { 10 }, ..s6.frame },
        };
        lemma_chain(s, 6, s6, fib_steps(n - 1), u6);
        let s7 = at(6, st.push(v1));
        assert(u6.stack.subrange(0, st.len() as int).push(u6.stack.last()) =~= st.push(v1));
        assert(s6.callers.drop_last() =~= s.callers);
        assert(step(u6) == Step::Next(s7));
        lemma_one_step(u6, s7);
        lemma_chain(s, 6 + fib_steps(n - 1), u6, 1, s7);
        let s8 = at(7, st.push(v1).push(Val::Int(n)));
        assert(s7.stack[fr.stack_start] == Val::Int(n));
        assert(step(s7) == Step::Next(s8));
        lemma_one_step(s7, s8);
        lemma_chain(s, 7 + fib_steps(n - 1), s7, 1, s8);
        let s9 = at(8, st.push(v1).push(Val::Int((n - 2) as i64)));
        assert(s8.stack.drop_last() =~= st.push(v1));
        assert(step(s8) == Step::Next(s9));
        lemma_one_step(s8, s9);
        lemma_chain(s, 8 + fib_steps(n - 1), s8, 1, s9);
        let s10 = MachineState {
            stack: s9.stack,
            callers: s.callers.push(FrameView { ip: 9, ..fr }),
            frame: FrameView { stack_start: st.len() + 1int, ip: 0, func: fr.func },
        };
        assert(step(s9) == Step::Next(s10));
        lemma_one_step(s9, s10);
        lemma_chain(s, 9 + fib_steps(n - 1), s9, 1, s10);
        // the second recursive call
        lemma_fib_call(s10, (n - 2) as i64);
        let u10 = MachineState {
            stack: s10.stack.push(v2),
            callers: s10.callers,
            frame: FrameView { ip: if n - 2 < 2 { 12 } else { 10 }, ..s10.frame },
        };
        lemma_chain(s, 10 + fib_steps(n - 1), s10, fib_steps(n - 2), u10);
        let s11 = at(9, st.push(v1).push(v2));
        assert(u10.stack.subrange(0, st.len() + 1int).push(u10.stack.last()) =~= st.push(v1).push(
            v2,
        ));
        assert(s10.callers.drop_last() =~= s.callers);
        assert(step(u10) == Step::Next(s11));
        lemma_one_step(u10, s11);
        lemma_chain(s, 10 + fib_steps(n - 1) + fib_steps(n - 2), u10, 1, s11);
        let s12 = at(10, st.push(Val::Int(fib(n as int) as i64)));
        assert(s11.stack.drop_last() =~= st.push(v1));
        assert(s11.stack.drop_last().drop_last() =~= st);
        assert(step(s11) == Step::Next(s12));
        lemma_one_step(s11, s12);
        lemma_chain(s, 11 + fib_steps(n - 1) + fib_steps(n - 2), s11, 1, s12);
    }
}

/// `(fib(k), fib(k + 1))`, computed in `k` steps.
spec fn fib_pair(k: nat) -> (int, int)
    decreases k,
{
    if k == 0 {
        (0, 1)
    } else {
        let p = fib_pair((k - 1) as nat);
        (p.1, p.0 + p.1)
    }
}

proof fn lemma_fib_pair(k: nat)
    ensures
        fib_pair(k) == (fib(k as int), fib(k + 1int)),
    decreases k,
{
    if k > 0 {
        lemma_fib_pair((k - 1) as nat);
    }
}

/// The step count of the Fibonacci function in closed form.
proof fn lemma_fib_steps(n: int)
    requires
        n >= 0,
    ensures
        fib_steps(n) == 16 * fib(n + 1) - 12,
    decreases n,
{
    assert(fib(2) == fib(1) + fib(0));
    if n >= 2 {
        lemma_fib_steps(n - 1);
        lemma_fib_steps(n - 2);
        assert(fib(n + 1) == fib(n) + fib(n - 1));
    }
}

/// The Fibonacci numbers on either side of `i64::MAX`.
proof fn lemma_fib_values()
    ensures
        fib(92) == 7540113804746346429,
        fib(93) == 12200160415121876738,
{
    lemma_fib_pair(92);
    assert(fib_pair(8) == (21int, 34int)) by {
        reveal_with_fuel(fib_pair, 9);
    }
    assert(fib_pair(16) == (987int, 1597int)) by {
        reveal_with_fuel(fib_pair, 9);
    }
    assert(fib_pair(24) == (46368int, 75025int)) by {
        reveal_with_fuel(fib_pair, 9);
    }
    assert(fib_pair(32) == (2178309int, 3524578int)) by {
        reveal_with_fuel(fib_pair, 9);
    }
    assert(fib_pair(40) == (102334155int, 165580141int)) by {
        reveal_with_fuel(fib_pair, 9);
    }
    assert(fib_pair(48) == (4807526976int, 7778742049int)) by {
        reveal_with_fuel(fib_pair, 9);
    }
    assert(fib_pair(56) == (225851433717int, 365435296162int)) by {
        reveal_with_fuel(fib_pair, 9);
    }
    assert(fib_pair(64) == (10610209857723int, 17167680177565int)) by {
        reveal_with_fuel(fib_pair, 9);
    }
    assert(fib_pair(72) == (498454011879264int, 806515533049393int)) by {
        reveal_with_fuel(fib_pair, 9);
    }
    assert(fib_pair(80) == (23416728348467685int, 37889062373143906int)) by {
        reveal_with_fuel(fib_pair, 9);
    }
    assert(fib_pair(88) == (1100087778366101931int, 1779979416004714189int)) by {
        reveal_with_fuel(fib_pair, 9);
    }
    assert(fib_pair(92) == (7540113804746346429int, 12200160415121876738int)) by {
        reveal_with_fuel(fib_pair, 5);
    }
}

/// `fib(n)` fits in an `i64` exactly for `n <= 92`.
pub proof fn law_fib_fits(n: int)
    ensures
        fib(n) <= i64::MAX <==> n <= 92,
{
    lemma_fib_values();
    if n < 2 {
    } else if n <= 92 {
        lemma_fib_monotonic(n, 92);
    } else {
        lemma_fib_monotonic(93, n);
    }
}

/// `make_fib` computes the Fibonacci numbers: called on `Int(n)` (as
/// `run_with_func` does) with `fib(n)` in the range of `i64` (`n <= 92`, see
/// `law_fib_fits`), its function reaches no fault and returns exactly
/// `Int(fib(n))`.
pub proof fn law_fib(f: Func, n: i64)
    requires
        is_fib_func(f),
        fib(n as int) <= i64::MAX,
    ensures
        no_early_fault(initial_state(f, seq![Val::Int(n)])),
        forall|r: Result<Val, Error>|
            can_return(initial_state(f, seq![Val::Int(n)]), r) <==> r == Ok::<Val, Error>(
                Val::Int(fib(n as int) as i64),
            ),
{
    let s0 = initial_state(f, seq![Val::Int(n)]);
    let v = Val::Int(fib(n as int) as i64);
    let t = fib_steps(n as int);
    lemma_fib_call(s0, n);
    let u = MachineState {
        stack: s0.stack.push(v),
        callers: s0.callers,
        frame: FrameView { ip: if n < 2 { 12 } else { 10 }, ..s0.frame },
    };
    assert(step(u) == Step::Halt(Ok(v)));
    assert(run_det(u, 1) == Step::Halt(Ok(v)));
    lemma_run_det_compose(s0, t, 1);
    assert(run_det(s0, t + 1) == Step::Halt(Ok(v)));
    law_fib_fits(n as int);
    lemma_fib_values();
    if n >= 0 {
        lemma_fib_steps(n as int);
        lemma_fib_monotonic(n + 1, 93);
    }
    law_deterministic_run(s0, t + 1, Ok(v));
}

/// A run that halts within the step budget without calling a native
/// function reaches no fault and has that one result.
pub proof fn law_deterministic_run(s: MachineState, k: nat, x: Result<Val, Error>)
    requires
        run_det(s, k) == Step::Halt(x),
        k <= step_budget(),
    ensures
        no_early_fault(s),
        forall|r: Result<Val, Error>| can_return(s, r) <==> r == x,
{
    lemma_halting_no_early_fault(s, k, x);
    assert forall|r: Result<Val, Error>| can_return(s, r) <==> r == x by {
        if can_return(s, r) {
            let natives = choose|natives: spec_fn(nat) -> Result<Val, Error>|
                #[trigger] run(s, step_budget(), natives, 0) == Some(r);
            lemma_deterministic_result(s, k, x, step_budget(), natives, 0);
        }
        if r == x {
            let natives = |i: nat| Err::<Val, Error>(Error::StackUnderflow);
            lemma_deterministic_result(s, k, x, step_budget(), natives, 0);
            assert(run(s, step_budget(), natives, 0) == Some(r));
        }
    }
}

/// A run that is still going, without having called a native function,
/// when the step budget is used up returns `StepLimitExceeded`, and only that.
pub proof fn law_step_limit(s: MachineState)
    requires
        run_det(s, step_budget()) is Next,
    ensures
        forall|r: Result<Val, Error>|
            can_return(s, r) <==> r == Err::<Val, Error>(Error::StepLimitExceeded),
{
    assert forall|r: Result<Val, Error>|
        can_return(s, r) <==> r == Err::<Val, Error>(Error::StepLimitExceeded) by {
        if can_return(s, r) {
            let natives = choose|natives: spec_fn(nat) -> Result<Val, Error>|
                #[trigger] run(s, step_budget(), natives, 0) == Some(r);
            lemma_run_out_of_fuel(s, step_budget(), natives, 0);
        }
        if r == Err::<Val, Error>(Error::StepLimitExceeded) {
            let natives = |i: nat| Err::<Val, Error>(Error::StackUnderflow);
            lemma_run_out_of_fuel(s, step_budget(), natives, 0);
            assert(run(s, step_budget(), natives, 0) == Some(r));
        }
    }
}

/// A state that steps to itself (such as `Jump(-1)`) never stops: its run
/// ends only by exhausting the step budget.
pub proof fn law_self_loop(s: MachineState, k: nat)
    requires
        step(s) == Step::Next(s),
    ensures
        run_det(s, k) == Step::Next(s),
        no_early_fault(s),
        forall|r: Result<Val, Error>|
            can_return(s, r) <==> r == Err::<Val, Error>(Error::StepLimitExceeded),
{
    assert forall|j: nat| !(#[trigger] run_det(s, j) is Fault) by {
        lemma_self_loop_budget(s, j);
    }
    lemma_self_loop_budget(s, k);
    lemma_self_loop_budget(s, step_budget());
    law_step_limit(s);
}

proof fn lemma_self_loop_budget(s: MachineState, k: nat)
    requires
        step(s) == Step::Next(s),
    ensures
        run_det(s, k) == Step::Next(s),
    decreases k,
{
    if k > 0 {
        lemma_self_loop_budget(s, (k - 1) as nat);
    }
}

/// A local read back after it was set gives the value that was stored.
pub proof fn law_set_then_load_local(s: MachineState, i: u8)
    requires
        exec_instr(Instruction::SetLocal(i), s) is Next,
    ensures
        ({
            let t = exec_instr(Instruction::SetLocal(i), s)->Next_0;
            exec_instr(Instruction::LoadLocal(i), t) == Step::Next(
                with_stack(t, t.stack.push(s.stack.last())),
            )
        }),
{
    let v = s.stack.last();
    let st = s.stack.drop_last();
    let idx = s.frame.stack_start + i;
    let t = exec_instr(Instruction::SetLocal(i), s)->Next_0;
    assert(t.stack == st.update(idx, v));
    assert(t.stack[idx] == v);
    assert(t.frame == s.frame);
}

/// Zero padding is removed again from text whose last byte is not zero.
proof fn lemma_trim_padding(b: Seq<u8>, k: nat)
    requires
        b.len() == 0 || b.last() != 0,
    ensures
        trim_nul(b + zeros(k)) == b,
    decreases k,
{
    if k == 0 {
        assert(b + zeros(0) =~= b);
    } else {
        assert((b + zeros(k)).drop_last() =~= b + zeros((k - 1) as nat));
        lemma_trim_padding(b, (k - 1) as nat);
    }
}

/// A symbol gives back the bytes it was made from (`Symbol::new(s)` followed
/// by `as_str` returns `s`), unless they end in zero bytes, which are taken
/// for padding.
pub proof fn law_symbol_text_roundtrip(b: Seq<u8>)
    requires
        b.len() <= MAX_SYMBOL_LEN,
        b.len() == 0 || b.last() != 0,
    ensures
        trim_nul(zero_padded(b)) == b,
{
    lemma_trim_padding(b, (MAX_SYMBOL_LEN - b.len()) as nat);
}

/// `EvalRecursive(n)` does what `Eval(n)` does with the running function
/// pushed above the arguments: the function starts afresh with the top `n`
/// values as its locals.
pub proof fn law_eval_recursive_is_eval_of_self(s: MachineState, n: u8)
    ensures
        exec_instr(Instruction::EvalRecursive(n), s) == exec_instr(
            Instruction::Eval(n),
            with_stack(s, s.stack.push(Val::Func(s.frame.func))),
        ),
{
    let t = with_stack(s, s.stack.push(Val::Func(s.frame.func)));
    assert(t.stack.drop_last() =~= s.stack);
}

/// `Binop(NotEq)` leaves the negation of what `Binop(Eq)` leaves, and the
/// two fail alike.
pub proof fn law_not_eq_negates_eq(s: MachineState)
    ensures
        match (exec_instr(Instruction::Binop(Binop::Eq), s), exec_instr(Instruction::Binop(Binop::NotEq), s)) {
            (Step::Next(t), Step::Next(u)) => {
                &&& t.stack.last() matches Val::Bool(b)
                &&& u.stack.last() == Val::Bool(!b)
                &&& u.stack.drop_last() == t.stack.drop_last()
                &&& u.callers == t.callers
                &&& u.frame == t.frame
            },
            (x, y) => x == y,
        },
{
}

/// A call's result does not depend on what the machine ran before: the
/// contract of `Vm::run_with_func` ties its result to `initial_state(f, args)`
/// alone, so two calls with the same function and arguments, on any machine
/// and after any earlier calls, give the same result when the program halts
/// without calling a native function.
pub proof fn law_call_independent_of_history(
    f: Func,
    args: Seq<Val>,
    k: nat,
    x: Result<Val, Error>,
    r1: Result<Val, Error>,
    r2: Result<Val, Error>,
)
    requires
        run_det(initial_state(f, args), k) == Step::Halt(x),
        k <= step_budget(),
        can_return(initial_state(f, args), r1),
        can_return(initial_state(f, args), r2),
    ensures
        r1 == x,
        r2 == x,
{
    law_deterministic_run(initial_state(f, args), k, x);
}

/// `SetLocal(i)` consumes the value it stores: it pops the top of the stack
/// and writes it into local `i` (counted from the frame's first local), which
/// must lie below the popped value; the stack shrinks by one.
pub proof fn law_set_local_consumes_value(s: MachineState, i: u8)
    ensures
        s.stack.len() == 0 ==> exec_instr(Instruction::SetLocal(i), s) == Step::Halt(
            Err::<Val, Error>(Error::StackUnderflow),
        ),
        s.stack.len() > 0 ==> (exec_instr(Instruction::SetLocal(i), s) is Next <==> 0
            <= s.frame.stack_start + i < s.stack.len() - 1),
        exec_instr(Instruction::SetLocal(i), s) is Next ==> ({
            let t = exec_instr(Instruction::SetLocal(i), s)->Next_0;
            &&& t.stack == s.stack.drop_last().update(s.frame.stack_start + i, s.stack.last())
            &&& t.stack.len() == s.stack.len() - 1
            &&& t.frame == s.frame
            &&& t.callers == s.callers
        }),
{
}

/// A native function called by `Eval(n)` receives the `n` values below it
/// in stack order (its `k`-th argument is the `k`-th of those values from the
/// bottom); a value it returns replaces them and the function itself, and an
/// error it returns stops the machine.
pub proof fn law_native_arguments_in_order(s: MachineState, n: u8)
    requires
        exec_instr(Instruction::Eval(n), s) is CallNative,
    ensures
        ({
            let len = s.stack.len() as int;
            let step = exec_instr(Instruction::Eval(n), s);
            let native = step->CallNative_native;
            let start = step->CallNative_start;
            let state = step->CallNative_state;
            &&& s.stack.last() == Val::NativeFunc(native)
            &&& native_args(state, start).len() == n
            &&& forall|k: int|
                0 <= k < n ==> #[trigger] native_args(state, start)[k] == s.stack[len - 1 - n + k]
            &&& forall|v: Val|
                #[trigger] resume_native(state, start, Ok(v)) == Step::Next(
                    MachineState { stack: s.stack.subrange(0, len - 1 - n).push(v), ..s },
                )
            &&& forall|e: Error|
                #[trigger] resume_native(state, start, Err(e)) == Step::Halt(Err::<Val, Error>(e))
        }),
{
    let len = s.stack.len() as int;
    let st = s.stack.drop_last();
    assert forall|v: Val| #[trigger]
        resume_native(with_stack(s, st), len - 1 - n, Ok(v)) == Step::Next(
            MachineState { stack: s.stack.subrange(0, len - 1 - n).push(v), ..s },
        ) by {
        assert(st.subrange(0, len - 1 - n) =~= s.stack.subrange(0, len - 1 - n));
    }
}

/// Division rounding toward zero: the remainder `a - q * b` is smaller than
/// `b` in size and, unless zero, has the sign of `a`.
pub proof fn law_trunc_div(a: int, b: int)
    requires
        b != 0,
    ensures
        ({
            let q = trunc_div(a, b);
            let r = a - q * b;
            &&& (if r >= 0 { r } else { -r }) < (if b >= 0 { b } else { -b })
            &&& (r == 0 || (r < 0) == (a < 0))
        }),
{
    let x = if a >= 0 { a } else { -a };
    let d = if b >= 0 { b } else { -b };
    let qa = x / d;
    let ra = x % d;
    vstd::arithmetic::div_mod::lemma_fundamental_div_mod(x, d);
    vstd::arithmetic::div_mod::lemma_mod_pos_bound(x, d);
    let q = trunc_div(a, b);
    assert(q == if (a < 0) != (b < 0) { -qa } else { qa });
    if a >= 0 && b > 0 {
        assert(a - q * b == ra);
    } else if a < 0 && b < 0 {
        assert(q * b == -(qa * d)) by (nonlinear_arith)
            requires
                q == qa,
                b == -d,
        ;
        assert(a - q * b == -ra);
    } else if a >= 0 {
        assert(q * b == qa * d) by (nonlinear_arith)
            requires
                q == -qa,
                b == -d,
        ;
        assert(a - q * b == ra);
    } else {
        assert(q * b == -(qa * d)) by (nonlinear_arith)
            requires
                q == -qa,
                b == d,
        ;
        assert(a - q * b == -ra);
    }
}

/// `Binop(op)` on two integers `t` (below) and `a` (on top) replaces them
/// with the result: the sum, difference or product when it fits in an `i64`
/// (otherwise a fault), the quotient rounded toward zero (see
/// `law_trunc_div`; `DivideByZero` for `a == 0`), and for the comparisons the
/// strict or non-strict order of `t` against `a`.
pub proof fn law_int_binop(s: MachineState, op: Binop, t: i64, a: i64)
    requires
        s.stack.len() >= 2,
        s.stack.last() == Val::Int(a),
        s.stack.drop_last().last() == Val::Int(t),
    ensures
        ({
            let rest = s.stack.drop_last().drop_last();
            let r = exec_instr(Instruction::Binop(op), s);
            let gives = |v: Val| r == Step::Next(MachineState { stack: rest.push(v), ..s });
            let fits = |x: int| i64::MIN <= x <= i64::MAX;
            match op {
                Binop::Add => if fits(t + a) {
                    gives(Val::Int((t + a) as i64))
                } else {
                    r is Fault
                },
                Binop::Sub => if fits(t - a) {
                    gives(Val::Int((t - a) as i64))
                } else {
                    r is Fault
                },
                Binop::Mul => if fits(t * a) {
                    gives(Val::Int((t * a) as i64))
                } else {
                    r is Fault
                },
                Binop::Div => if a == 0 {
                    r == Step::Halt(Err::<Val, Error>(Error::DivideByZero))
                } else if fits(trunc_div(t as int, a as int)) {
                    gives(Val::Int(trunc_div(t as int, a as int) as i64))
                } else {
                    r is Fault
                },
                Binop::Lt => gives(Val::Bool(t < a)),
                Binop::Le => gives(Val::Bool(t <= a)),
                Binop::Gt => gives(Val::Bool(t > a)),
                Binop::Ge => gives(Val::Bool(t >= a)),
                Binop::Eq => gives(Val::Bool(t == a)),
                Binop::NotEq => gives(Val::Bool(t != a)),
            }
        }),
{
}

/// `StringLength` replaces a string or symbol on top of the stack with the
/// length of its text in bytes of UTF-8.
pub proof fn law_string_length(s: MachineState)
    ensures
        s.stack.len() == 0 ==> exec_instr(Instruction::StringLength, s) == Step::Halt(
            Err::<Val, Error>(Error::StackUnderflow),
        ),
        s.stack.len() > 0 && s.stack.last() is Symbol ==> exec_instr(Instruction::StringLength, s)
            == Step::Next(
            MachineState {
                stack: s.stack.drop_last().push(
                    Val::Int(s.stack.last()->Symbol_0.text_bytes().len() as i64),
                ),
                ..s
            },
        ),
        s.stack.len() > 0 && s.stack.last() is String ==> exec_instr(Instruction::StringLength, s)
            == Step::Next(
            MachineState {
                stack: s.stack.drop_last().push(
                    Val::Int(
                        (vstd::utf8::encode_utf8(s.stack.last()->String_0@).len() as usize) as i64,
                    ),
                ),
                ..s
            },
        ),
{
}

/// Trimming zero bytes never lengthens.
proof fn lemma_trim_nul_len(b: Seq<u8>)
    ensures
        trim_nul(b).len() <= b.len(),
    decreases b.len(),
{
    if b.len() > 0 && b.last() == 0 {
        lemma_trim_nul_len(b.drop_last());
    }
}

/// A symbol and a string holding the same text have the same `StringLength`:
/// the number of bytes of that text.
pub proof fn law_string_length_same_text(s: MachineState, t: RcString, y: Symbol)
    requires
        vstd::utf8::encode_utf8(t@) == y.text_bytes(),
    ensures
        exec_instr(Instruction::StringLength, with_stack(s, s.stack.push(Val::String(t))))
            == exec_instr(Instruction::StringLength, with_stack(s, s.stack.push(Val::Symbol(y)))),
        exec_instr(Instruction::StringLength, with_stack(s, s.stack.push(Val::Symbol(y))))
            == Step::Next(
            with_stack(s, s.stack.push(Val::Int(y.text_bytes().len() as i64))),
        ),
{
    lemma_trim_nul_len(y@);
    y.lemma_view_len();
    assert(s.stack.push(Val::String(t)).drop_last() =~= s.stack);
    assert(s.stack.push(Val::Symbol(y)).drop_last() =~= s.stack);
}

/// The loads push one value and leave the rest alone: `LoadInt(x)` the
/// integer `x`, `LoadConst(i)` the running function's `i`-th constant (a
/// fault past the table), and `LoadLocal(i)` a copy of local `i`, the value
/// `i` places above the frame's first local (a fault outside the stack).
pub proof fn law_loads(s: MachineState, x: i8, i: u8)
    ensures
        exec_instr(Instruction::LoadInt(x), s) == Step::Next(
            MachineState { stack: s.stack.push(Val::Int(x as i64)), ..s },
        ),
        i < s.frame.func.consts().len() ==> exec_instr(Instruction::LoadConst(i), s) == Step::Next(
            MachineState { stack: s.stack.push(s.frame.func.consts()[i as int]), ..s },
        ),
        i >= s.frame.func.consts().len() ==> exec_instr(Instruction::LoadConst(i), s) is Fault,
        0 <= s.frame.stack_start + i < s.stack.len() ==> exec_instr(Instruction::LoadLocal(i), s)
            == Step::Next(
            MachineState { stack: s.stack.push(s.stack[s.frame.stack_start + i]), ..s },
        ),
        !(0 <= s.frame.stack_start + i < s.stack.len()) ==> exec_instr(
            Instruction::LoadLocal(i),
            s,
        ) is Fault,
{
}

/// `Jump(n)` moves the next instruction `n` places from where it was (a
/// fault when that leaves the code); `JumpIf(n)` pops the top and jumps only
/// when it is not `false`.
pub proof fn law_jumps(s: MachineState, n: i8)
    ensures
        ({
            let target = s.frame.ip + n;
            let inside = 0 <= target < s.frame.func.code().len();
            let moved = |stack: Seq<Val>|
                MachineState { stack: stack, frame: FrameView { ip: target, ..s.frame }, ..s };
            &&& inside ==> exec_instr(Instruction::Jump(n), s) == Step::Next(moved(s.stack))
            &&& !inside ==> exec_instr(Instruction::Jump(n), s) is Fault
            &&& s.stack.len() > 0 && s.stack.last() == Val::Bool(false) ==> exec_instr(
                Instruction::JumpIf(n),
                s,
            ) == Step::Next(MachineState { stack: s.stack.drop_last(), ..s })
            &&& s.stack.len() > 0 && s.stack.last() != Val::Bool(false) && inside ==> exec_instr(
                Instruction::JumpIf(n),
                s,
            ) == Step::Next(moved(s.stack.drop_last()))
            &&& s.stack.len() == 0 ==> exec_instr(Instruction::JumpIf(n), s) == Step::Halt(
                Err::<Val, Error>(Error::StackUnderflow),
            )
        }),
{
}

/// `Return` with no caller stops the machine with the top value; with a
/// caller, it drops the returning frame's locals and everything above them,
/// keeps the top value in their place, and resumes the innermost caller.
pub proof fn law_return(s: MachineState)
    ensures
        s.stack.len() == 0 ==> exec_instr(Instruction::Return, s) == Step::Halt(
            Err::<Val, Error>(Error::StackUnderflow),
        ),
        s.stack.len() > 0 && s.callers.len() == 0 ==> exec_instr(Instruction::Return, s)
            == Step::Halt(Ok::<Val, Error>(s.stack.last())),
        s.callers.len() > 0 && 0 <= s.frame.stack_start < s.stack.len() ==> exec_instr(
            Instruction::Return,
            s,
        ) == Step::Next(
            MachineState {
                stack: s.stack.subrange(0, s.frame.stack_start).push(s.stack.last()),
                callers: s.callers.subrange(0, s.callers.len() - 1),
                frame: s.callers[s.callers.len() - 1],
            },
        ),
        s.callers.len() > 0 && 0 < s.stack.len() <= s.frame.stack_start ==> exec_instr(
            Instruction::Return,
            s,
        ) == Step::Halt(Err::<Val, Error>(Error::StackUnderflow)),
{
}

/// `Eval(n)` of a function of `n` arguments suspends the running frame and
/// starts the function at its first instruction, with the `n` values below
/// it as its first locals; the function value itself is popped.
pub proof fn law_eval_func(s: MachineState, n: u8, g: Func)
    requires
        s.stack.len() >= n + 1,
        s.stack.last() == Val::Func(g),
    ensures
        g.arity() == n ==> exec_instr(Instruction::Eval(n), s) == Step::Next(
            MachineState {
                stack: s.stack.subrange(0, s.stack.len() - 1),
                callers: s.callers.push(s.frame),
                frame: FrameView { stack_start: s.stack.len() - 1 - n, ip: 0, func: g },
            },
        ),
        g.arity() != n ==> exec_instr(Instruction::Eval(n), s) == Step::Halt(
            Err::<Val, Error>(Error::WrongArgCount { expected: g.arity(), got: n as usize }),
        ),
{
    assert(s.stack.drop_last() =~= s.stack.subrange(0, s.stack.len() - 1));
}

/// The operations with an immediate `n` act on the integer on top:
/// `AddN(n)` adds `n` (a fault past the range of `i64`), and `LessThan(n)`,
/// `GreaterThan(n)` and `Equal(n)` replace it by its comparison with `n`.
pub proof fn law_immediate_ops(s: MachineState, x: i64, n: i8)
    requires
        s.stack.len() > 0,
        s.stack.last() == Val::Int(x),
    ensures
        ({
            let gives = |v: Val| Step::Next(MachineState { stack: s.stack.drop_last().push(v), ..s });
            &&& i64::MIN <= x + n <= i64::MAX ==> exec_instr(Instruction::AddN(n), s) == gives(
                Val::Int((x + n) as i64),
            )
            &&& !(i64::MIN <= x + n <= i64::MAX) ==> exec_instr(Instruction::AddN(n), s) is Fault
            &&& exec_instr(Instruction::LessThan(n), s) == gives(Val::Bool(x < n))
            &&& exec_instr(Instruction::GreaterThan(n), s) == gives(Val::Bool(x > n))
            &&& exec_instr(Instruction::Equal(n), s) == gives(Val::Bool(x == n))
        }),
{
}

/// `Dup(n)` pushes `n` more copies of the top value.
pub proof fn law_dup(s: MachineState, n: u8)
    requires
        s.stack.len() > 0,
    ensures
        exec_instr(Instruction::Dup(n), s) matches Step::Next(t) && t.callers == s.callers
            && t.frame == s.frame && t.stack.len() == s.stack.len() + n && t.stack.subrange(
            0,
            s.stack.len() as int,
        ) == s.stack && forall|k: int|
            s.stack.len() <= k < t.stack.len() ==> #[trigger] t.stack[k] == s.stack.last(),
{
    let t = exec_instr(Instruction::Dup(n), s)->Next_0;
    assert(t.stack.subrange(0, s.stack.len() as int) =~= s.stack);
}

/// A step fetches the instruction at the frame's instruction index (a fault
/// outside the code) and executes it with the index moved past it.
pub proof fn law_fetch(s: MachineState)
    ensures
        0 <= s.frame.ip < s.frame.func.code().len() ==> step(s) == exec_instr(
            s.frame.func.code()[s.frame.ip],
            MachineState { frame: FrameView { ip: s.frame.ip + 1, ..s.frame }, ..s },
        ),
        !(0 <= s.frame.ip < s.frame.func.code().len()) ==> step(s) is Fault,
{
}

/// `Binop(op)` needs two values: `Eq` and `NotEq` compare any two (see
/// `law_val_equal_cases`); the other operations need two integers and name
/// the first operand found of another type, the top one first.
pub proof fn law_binop_operands(s: MachineState, op: Binop)
    ensures
        s.stack.len() < 2 ==> exec_instr(Instruction::Binop(op), s) == Step::Halt(
            Err::<Val, Error>(Error::StackUnderflow),
        ),
        ({
            let a = s.stack.last();
            let t = s.stack.drop_last().last();
            let rest = s.stack.drop_last().drop_last();
            let r = exec_instr(Instruction::Binop(op), s);
            let wrong = |v: Val|
                Step::Halt(
                    Err::<Val, Error>(Error::WrongType { expected: "Int", got: type_name_of(v) }),
                );
            &&& s.stack.len() >= 2 && op is Eq ==> r == Step::Next(
                MachineState { stack: rest.push(Val::Bool(val_equal(a, t))), ..s },
            )
            &&& s.stack.len() >= 2 && op is NotEq ==> r == Step::Next(
                MachineState { stack: rest.push(Val::Bool(!val_equal(a, t))), ..s },
            )
            &&& s.stack.len() >= 2 && !(op is Eq || op is NotEq) && !(a is Int) ==> r == wrong(a)
            &&& s.stack.len() >= 2 && !(op is Eq || op is NotEq) && a is Int && !(t is Int) ==> r
                == wrong(t)
        }),
{
}

/// The type names that errors report, and which values count as true: every
/// value but `Bool(false)`.
pub proof fn law_type_names_and_truth(v: Val)
    ensures
        type_name_of(v) == match v {
            Val::Bool(_) => "Bool",
            Val::Int(_) => "Int",
            Val::String(_) => "Str",
            Val::Symbol(_) => "Symbol",
            Val::Func(_) => "Func",
            Val::NativeFunc(_) => "NativeFunc",
        },
        crate::val::truthy(v) <==> v != Val::Bool(false),
{
}

} // verus!
