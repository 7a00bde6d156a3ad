//! The executable machine, proved to follow the semantics of `machine`.
use vstd::prelude::*;

use crate::func::{Binop, Instruction};
use crate::machine::{
    can_return, exec_instr, extends, initial_state, int_result, jump, native_admits, native_args,
    no_early_fault, resume_native, run, step, step_budget, step_given, with_stack, FrameView,
    MachineState, Step,
};
use crate::trusted::{call_native, native_returns};
use crate::val::{type_name_of, Func, Val};
use crate::Error;

verus! {

/// A function activation: where its locals start on the stack, the index of
/// the next instruction, and the function.
pub struct StackFrame {
    pub(crate) stack_start: usize,
    pub(crate) instruction_idx: usize,
    pub(crate) func: Func,
}

impl StackFrame {
    /// Where the frame's locals start on the operand stack.
    pub closed spec fn start_index(&self) -> usize {
        self.stack_start
    }

    /// The index of the frame's next instruction.
    pub closed spec fn next_index(&self) -> usize {
        self.instruction_idx
    }

    /// The function the frame runs.
    pub closed spec fn running(&self) -> Func {
        self.func
    }
}

impl View for StackFrame {
    type V = FrameView;

    open spec fn view(&self) -> FrameView {
        FrameView {
            stack_start: self.start_index() as int,
            ip: self.next_index() as int,
            func: self.running(),
        }
    }
}

impl StackFrame {
    /// Fetch the instruction this frame points at and move past it.
    pub(crate) fn advance_instruction(&mut self) -> (i: Instruction)
        requires
            0 <= old(self)@.ip < old(self)@.func.code().len() <= usize::MAX,
        ensures
            i == old(self)@.func.code()[old(self)@.ip],
            final(self)@ == (FrameView { ip: old(self)@.ip + 1, ..old(self)@ }),
    {
        let ip = self.instruction_idx;
        let instr = self.func.instruction(ip);
        self.instruction_idx = ip + 1;
        instr
    }
}

/// A stack-based bytecode virtual machine.
pub struct Vm {
    pub(crate) stack: Vec<Val>,
    pub(crate) stack_frames: Vec<StackFrame>,
}

/// How an executed step ended: `None` to keep running, `Some(x)` to stop with
/// `x`; either must be what the semantics says the step leads to, where a
/// fault stops the machine with `Err(Fault)`.
pub open spec fn matches_step(st: Step, r: Option<Result<Val, Error>>, post: MachineState) -> bool {
    match r {
        None => st == Step::Next(post),
        Some(x) => st == Step::Halt(x) || (st is Fault && x == Err::<Val, Error>(Error::Fault)),
    }
}

/// The integer operation `op` on `t` (below) and `a` (on top), with
/// `None` for an arithmetic result that does not fit in an `i64`.
fn int_binop(op: Binop, t: i64, a: i64) -> (r: Option<Val>)
    requires
        op is Div ==> a != 0,
    ensures
        r == int_result(op, t as int, a as int),
{
    let fit = |x: Option<i64>| -> (v: Option<Val>)
        ensures
            v == match x {
                Some(y) => Some(Val::Int(y)),
                None => None::<Val>,
            },
        {
            match x {
                Some(y) => Some(Val::Int(y)),
                None => None,
            }
        };
    match op {
        Binop::Add => fit(t.checked_add(a)),
        Binop::Sub => fit(t.checked_sub(a)),
        Binop::Mul => fit(t.checked_mul(a)),
        Binop::Div => fit(t.checked_div(a)),
        Binop::Lt => Some(Val::Bool(t < a)),
        Binop::Le => Some(Val::Bool(t <= a)),
        Binop::Gt => Some(Val::Bool(t > a)),
        Binop::Ge => Some(Val::Bool(t >= a)),
        Binop::Eq => Some(Val::Bool(t == a)),
        Binop::NotEq => Some(Val::Bool(t != a)),
    }
}

impl Vm {
    /// The operand stack.
    pub closed spec fn stack_view(&self) -> Seq<Val> {
        self.stack@
    }

    /// The suspended callers.
    pub closed spec fn callers_view(&self) -> Seq<FrameView> {
        self.stack_frames@.map_values(|f: StackFrame| f@)
    }

    /// The machine state with `frame` running.
    pub closed spec fn state(&self, frame: StackFrame) -> MachineState {
        MachineState { stack: self.stack@, callers: self.callers_view(), frame: frame@ }
    }

    /// Create a new VM with empty state.
    pub fn new() -> (vm: Vm)
        ensures
            vm.stack_view() == Seq::<Val>::empty(),
            vm.callers_view() == Seq::<FrameView>::empty(),
    {
        let vm = Vm { stack: Vec::with_capacity(128), stack_frames: Vec::with_capacity(64) };
        assert(vm.callers_view() =~= Seq::<FrameView>::empty());
        vm
    }
}

impl Vm {
    /// `LoadInt(x)`.
    fn op_load_int(&mut self, Ghost(frame): Ghost<StackFrame>, x: i8) -> (r: Option<Result<Val, Error>>)
        ensures
            matches_step(
                exec_instr(Instruction::LoadInt(x), old(self).state(frame)),
                r,
                final(self).state(frame),
            ),
            final(self).stack_frames == old(self).stack_frames,
    {
        self.stack.push(Val::Int(x as i64));
        None
    }

    /// `LoadConst(i)`.
    fn op_load_const(&mut self, frame: &StackFrame, i: u8) -> (r: Option<Result<Val, Error>>)
        ensures
            matches_step(
                exec_instr(Instruction::LoadConst(i), old(self).state(*frame)),
                r,
                final(self).state(*frame),
            ),
            final(self).stack_frames == old(self).stack_frames,
    {
        if i as usize >= frame.func.constants().len() {
            return Some(Err(Error::Fault));
        }
        let v = frame.func.constant(i as usize).clone();
        self.stack.push(v);
        None
    }

    /// `LoadLocal(i)`.
    fn op_load_local(&mut self, frame: &StackFrame, i: u8) -> (r: Option<Result<Val, Error>>)
        ensures
            matches_step(
                exec_instr(Instruction::LoadLocal(i), old(self).state(*frame)),
                r,
                final(self).state(*frame),
            ),
            final(self).stack_frames == old(self).stack_frames,
    {
        assert(self.state(*frame).frame.stack_start == frame.stack_start);
        let len = self.stack.len();
        if frame.stack_start >= len || (i as usize) >= len - frame.stack_start {
            return Some(Err(Error::Fault));
        }
        let idx = frame.stack_start + i as usize;
        let v = self.stack[idx].clone();
        self.stack.push(v);
        None
    }

    /// `SetLocal(i)`.
    fn op_set_local(&mut self, frame: &StackFrame, i: u8) -> (r: Option<Result<Val, Error>>)
        ensures
            matches_step(
                exec_instr(Instruction::SetLocal(i), old(self).state(*frame)),
                r,
                final(self).state(*frame),
            ),
            final(self).stack_frames == old(self).stack_frames,
    {
        match self.stack.pop() {
            None => Some(Err(Error::StackUnderflow)),
            Some(v) => {
                assert(old(self).state(*frame).frame.stack_start == frame.stack_start);
                let len = self.stack.len();
                if frame.stack_start >= len || (i as usize) >= len - frame.stack_start {
                    return Some(Err(Error::Fault));
                }
                let idx = frame.stack_start + i as usize;
                self.stack.set(idx, v);
                None
            },
        }
    }
}

impl Vm {
    /// Move `frame` `n` instructions from the next one, unless the target
    /// lies outside the code, in which case `false` is returned.
    fn do_jump(&self, frame: &mut StackFrame, n: i8) -> (ok: bool)
        ensures
            ok == !(jump(self.state(*old(frame)), self.stack@, n) is Fault),
            ok ==> jump(self.state(*old(frame)), self.stack@, n) == Step::Next(
                self.state(*final(frame)),
            ),
    {
        assert(self.state(*frame).frame.ip == frame.instruction_idx);
        let ip = frame.instruction_idx;
        let code_len = frame.func.code_len();
        if n >= 0 {
            let k = n as usize;
            if k >= code_len || ip >= code_len - k {
                return false;
            }
            frame.instruction_idx = ip + k;
        } else {
            let back: usize = (-(n as i16)) as usize;
            if back > ip || ip - back >= code_len {
                return false;
            }
            frame.instruction_idx = ip - back;
        }
        true
    }

    /// `JumpIf(n)`.
    fn op_jump_if(&mut self, frame: &mut StackFrame, n: i8) -> (r: Option<Result<Val, Error>>)
        ensures
            matches_step(
                exec_instr(Instruction::JumpIf(n), old(self).state(*old(frame))),
                r,
                final(self).state(*final(frame)),
            ),
            final(self).stack_frames == old(self).stack_frames,
    {
        match self.stack.pop() {
            None => Some(Err(Error::StackUnderflow)),
            Some(v) => {
                if v.is_truthy() && !self.do_jump(frame, n) {
                    return Some(Err(Error::Fault));
                }
                None
            },
        }
    }

    /// `Jump(n)`.
    fn op_jump(&mut self, frame: &mut StackFrame, n: i8) -> (r: Option<Result<Val, Error>>)
        ensures
            matches_step(
                exec_instr(Instruction::Jump(n), old(self).state(*old(frame))),
                r,
                final(self).state(*final(frame)),
            ),
            final(self).stack_frames == old(self).stack_frames,
    {
        if !self.do_jump(frame, n) {
            return Some(Err(Error::Fault));
        }
        None
    }
}

impl Vm {
    /// `Return`.
    fn op_return(&mut self, frame: &mut StackFrame) -> (r: Option<Result<Val, Error>>)
        ensures
            matches_step(
                exec_instr(Instruction::Return, old(self).state(*old(frame))),
                r,
                final(self).state(*final(frame)),
            ),
    {
        let ghost s = self.state(*frame);
        if self.stack.len() == 0 {
            return Some(Err(Error::StackUnderflow));
        }
        if self.stack_frames.len() == 0 {
            let top = self.stack.pop().unwrap();
            return Some(Ok(top));
        }
        assert(s.frame.stack_start == frame.stack_start);
        let start = frame.stack_start;
        if start >= self.stack.len() {
            return Some(Err(Error::StackUnderflow));
        }
        let top = self.stack.pop().unwrap();
        self.stack.truncate(start);
        self.stack.push(top);
        let ghost old_frames = self.stack_frames@;
        let prev = self.stack_frames.pop().unwrap();
        *frame = prev;
        proof {
            assert(self.stack_frames@.map_values(|f: StackFrame| f@) =~= old_frames.map_values(
                |f: StackFrame| f@,
            ).drop_last());
            assert(self.stack@ =~= s.stack.subrange(0, start as int).push(s.stack.last()));
        }
        None
    }

    /// `Binop(op)`.
    fn op_binop(&mut self, frame: &StackFrame, op: Binop) -> (r: Option<Result<Val, Error>>)
        ensures
            matches_step(
                exec_instr(Instruction::Binop(op), old(self).state(*frame)),
                r,
                final(self).state(*frame),
            ),
            final(self).stack_frames == old(self).stack_frames,
    {
        let a = match self.stack.pop() {
            None => return Some(Err(Error::StackUnderflow)),
            Some(a) => a,
        };
        let top = match self.stack.pop() {
            None => return Some(Err(Error::StackUnderflow)),
            Some(t) => t,
        };
        match op {
            Binop::Eq => {
                let b = a.equals(&top);
                self.stack.push(Val::Bool(b));
                return None;
            },
            Binop::NotEq => {
                let b = a.equals(&top);
                self.stack.push(Val::Bool(!b));
                return None;
            },
            _ => {},
        }
        let av = match a {
            Val::Int(x) => x,
            _ => return Some(Err(Error::WrongType { expected: "Int", got: a.type_str() })),
        };
        let tv = match top {
            Val::Int(x) => x,
            _ => return Some(Err(Error::WrongType { expected: "Int", got: top.type_str() })),
        };
        if matches!(op, Binop::Div) && av == 0 {
            return Some(Err(Error::DivideByZero));
        }
        match int_binop(op, tv, av) {
            Some(v) => {
                self.stack.push(v);
                None
            },
            None => Some(Err(Error::Fault)),
        }
    }

    /// `AddN(n)`.
    fn op_add_n(&mut self, Ghost(frame): Ghost<StackFrame>, n: i8) -> (r: Option<Result<Val, Error>>)
        ensures
            matches_step(
                exec_instr(Instruction::AddN(n), old(self).state(frame)),
                r,
                final(self).state(frame),
            ),
            final(self).stack_frames == old(self).stack_frames,
    {
        match self.stack.pop() {
            None => Some(Err(Error::StackUnderflow)),
            Some(v) => match v {
                Val::Int(x) => match x.checked_add(n as i64) {
                    Some(y) => {
                        self.stack.push(Val::Int(y));
                        None
                    },
                    None => Some(Err(Error::Fault)),
                },
                _ => Some(Err(Error::WrongType { expected: "Int", got: v.type_str() })),
            },
        }
    }

    /// `LessThan(n)`, `GreaterThan(n)` and `Equal(n)`: compare the top integer with `n`.
    fn op_compare(&mut self, Ghost(frame): Ghost<StackFrame>, instr: Instruction) -> (r: Option<
        Result<Val, Error>,
    >)
        requires
            instr is LessThan || instr is GreaterThan || instr is Equal,
        ensures
            matches_step(exec_instr(instr, old(self).state(frame)), r, final(self).state(frame)),
            final(self).stack_frames == old(self).stack_frames,
    {
        match self.stack.pop() {
            None => Some(Err(Error::StackUnderflow)),
            Some(v) => match v {
                Val::Int(x) => {
                    let b = match instr {
                        Instruction::LessThan(n) => x < n as i64,
                        Instruction::GreaterThan(n) => x > n as i64,
                        Instruction::Equal(n) => x == n as i64,
                        _ => false,
                    };
                    self.stack.push(Val::Bool(b));
                    None
                },
                _ => Some(Err(Error::WrongType { expected: "Int", got: v.type_str() })),
            },
        }
    }

    /// `StringLength`.
    fn op_string_length(&mut self, Ghost(frame): Ghost<StackFrame>) -> (r: Option<
        Result<Val, Error>,
    >)
        ensures
            matches_step(
                exec_instr(Instruction::StringLength, old(self).state(frame)),
                r,
                final(self).state(frame),
            ),
            final(self).stack_frames == old(self).stack_frames,
    {
        match self.stack.pop() {
            None => Some(Err(Error::StackUnderflow)),
            Some(v) => match v {
                Val::String(t) => {
                    self.stack.push(Val::Int(t.len() as i64));
                    None
                },
                Val::Symbol(y) => {
                    self.stack.push(Val::Int(y.text_len() as i64));
                    None
                },
                _ => Some(Err(Error::WrongType { expected: "Str or Symbol", got: v.type_str() })),
            },
        }
    }

    /// `Dup(n)`.
    fn op_dup(&mut self, Ghost(frame): Ghost<StackFrame>, n: u8) -> (r: Option<Result<Val, Error>>)
        ensures
            matches_step(
                exec_instr(Instruction::Dup(n), old(self).state(frame)),
                r,
                final(self).state(frame),
            ),
            final(self).stack_frames == old(self).stack_frames,
    {
        let len = self.stack.len();
        if len == 0 {
            return Some(Err(Error::StackUnderflow));
        }
        let v = self.stack[len - 1].clone();
        let ghost start = self.stack@;
        let mut i: u8 = 0;
        while i < n
            invariant
                i <= n,
                self.stack@ =~= start + Seq::new(i as nat, |j: int| v),
                self.stack_frames == old(self).stack_frames,
            decreases n - i,
        {
            self.stack.push(v.clone());
            i = i + 1;
        }
        None
    }
}

impl Vm {
    /// Suspend the running frame and start `func` with its locals from `start`.
    fn enter_func(&mut self, frame: &mut StackFrame, func: Func, start: usize)
        ensures
            final(self).stack == old(self).stack,
            final(self).state(*final(frame)) == (MachineState {
                stack: old(self).stack@,
                callers: old(self).state(*old(frame)).callers.push(old(frame)@),
                frame: FrameView { stack_start: start as int, ip: 0, func: func },
            }),
    {
        let mut callee = StackFrame { stack_start: start, instruction_idx: 0, func };
        std::mem::swap(frame, &mut callee);
        let ghost old_frames = self.stack_frames@;
        self.stack_frames.push(callee);
        assert(self.stack_frames@.map_values(|f: StackFrame| f@) =~= old_frames.map_values(
            |f: StackFrame| f@,
        ).push(callee@));
    }

    /// `EvalRecursive(n)`.
    fn op_eval_recursive(&mut self, frame: &mut StackFrame, n: u8) -> (r: Option<
        Result<Val, Error>,
    >)
        ensures
            matches_step(
                exec_instr(Instruction::EvalRecursive(n), old(self).state(*old(frame))),
                r,
                final(self).state(*final(frame)),
            ),
    {
        let len = self.stack.len();
        if len < n as usize {
            return Some(Err(Error::StackUnderflow));
        }
        let func = frame.func.clone();
        if func.args() != n as usize {
            return Some(Err(Error::WrongArgCount { expected: func.args(), got: n as usize }));
        }
        self.enter_func(frame, func, len - n as usize);
        None
    }

    /// `Eval(n)`; a native function it calls gets the `n` values below the
    /// function on the stack and returns the second result.
    fn op_eval(&mut self, frame: &mut StackFrame, n: u8) -> (r: (
        Option<Result<Val, Error>>,
        Ghost<Result<Val, Error>>,
    ))
        ensures
            exec_instr(Instruction::Eval(n), old(self).state(*old(frame))) matches Step::CallNative {
                native,
                start,
                state,
            } ==> native_returns(native, native_args(state, start), r.1@),
            matches_step(
                match exec_instr(Instruction::Eval(n), old(self).state(*old(frame))) {
                    Step::CallNative { native, start, state } => resume_native(state, start, r.1@),
                    other => other,
                },
                r.0,
                final(self).state(*final(frame)),
            ),
    {
        let ghost s = self.state(*frame);
        let fv = match self.stack.pop() {
            None => return (Some(Err(Error::StackUnderflow)), Ghost(Err(Error::StackUnderflow))),
            Some(v) => v,
        };
        let len = self.stack.len();
        if len < n as usize {
            return (Some(Err(Error::StackUnderflow)), Ghost(Err(Error::StackUnderflow)));
        }
        let start = len - n as usize;
        match fv {
            Val::Func(g) => {
                if g.args() != n as usize {
                    return (
                        Some(Err(Error::WrongArgCount { expected: g.args(), got: n as usize })),
                        Ghost(Err(Error::StackUnderflow)),
                    );
                }
                self.enter_func(frame, g, start);
                (None, Ghost(Err(Error::StackUnderflow)))
            },
            Val::NativeFunc(nf) => {
                let args = vstd::slice::slice_subrange(self.stack.as_slice(), start, len);
                assert(args@ == native_args(with_stack(s, self.stack@), start as int));
                let out = call_native(&nf, args);
                let ghost got = out;
                match out {
                    Ok(v) => {
                        self.stack.truncate(start);
                        self.stack.push(v);
                        (None, Ghost(got))
                    },
                    Err(e) => (Some(Err(e)), Ghost(got)),
                }
            },
            _ => (
                Some(Err(Error::WrongType { expected: "Func", got: fv.type_str() })),
                Ghost(Err(Error::StackUnderflow)),
            ),
        }
    }

    /// Execute the instruction that `frame` points at; a native function it
    /// calls returns the second result.
    fn exec_step(&mut self, frame: &mut StackFrame) -> (r: (
        Option<Result<Val, Error>>,
        Ghost<Result<Val, Error>>,
    ))
        ensures
            native_admits(old(self).state(*old(frame)), r.1@),
            matches_step(
                step_given(old(self).state(*old(frame)), r.1@),
                r.0,
                final(self).state(*final(frame)),
            ),
    {
        let ghost s = self.state(*frame);
        if frame.instruction_idx >= frame.func.code_len() {
            return (Some(Err(Error::Fault)), Ghost(Err(Error::Fault)));
        }
        let instr = frame.advance_instruction();
        assert(self.state(*frame) == (MachineState {
            frame: FrameView { ip: s.frame.ip + 1, ..s.frame },
            ..s
        }));
        let none = Ghost(Err(Error::StackUnderflow));
        match instr {
            Instruction::Eval(n) => self.op_eval(frame, n),
            Instruction::EvalRecursive(n) => (self.op_eval_recursive(frame, n), none),
            Instruction::LoadInt(x) => (self.op_load_int(Ghost(*frame), x), none),
            Instruction::LoadConst(i) => (self.op_load_const(frame, i), none),
            Instruction::LoadLocal(i) => (self.op_load_local(frame, i), none),
            Instruction::SetLocal(i) => (self.op_set_local(frame, i), none),
            Instruction::JumpIf(n) => (self.op_jump_if(frame, n), none),
            Instruction::Jump(n) => (self.op_jump(frame, n), none),
            Instruction::Return => (self.op_return(frame), none),
            Instruction::Binop(op) => (self.op_binop(frame, op), none),
            Instruction::AddN(n) => (self.op_add_n(Ghost(*frame), n), none),
            Instruction::LessThan(_) | Instruction::GreaterThan(_) | Instruction::Equal(_) => (
                self.op_compare(Ghost(*frame), instr),
                none,
            ),
            Instruction::StringLength => (self.op_string_length(Ghost(*frame)), none),
            Instruction::Dup(n) => (self.op_dup(Ghost(*frame), n), none),
        }
    }
}

/// One step of `run`, read in the order that `run` takes it.
proof fn lemma_run_step(
    s: MachineState,
    fuel: nat,
    natives: spec_fn(nat) -> Result<Val, Error>,
    k0: nat,
    out: Result<Val, Error>,
)
    requires
        fuel > 0,
        step(s) is CallNative ==> natives(k0) == out,
        native_admits(s, out),
    ensures
        run(s, fuel, natives, k0) == match step_given(s, out) {
            Step::Next(t) => run(
                t,
                (fuel - 1) as nat,
                natives,
                k0 + if step(s) is CallNative { 1nat } else { 0nat },
            ),
            Step::Halt(x) => Some(x),
            _ => Some(Err(Error::Fault)),
        },
{
}

impl Vm {
    /// Run the machine from the frame `frame` until it stops, for at most
    /// `u128::MAX` steps.
    fn run(&mut self, start: StackFrame) -> (r: Result<Val, Error>)
        ensures
            can_return(old(self).state(start), r),
    {
        let ghost init = self.state(start);
        assert(init == old(self).state(start));
        let mut frame = start;
        let mut fuel: u128 = u128::MAX;
        let ghost mut got: Seq<Result<Val, Error>> = Seq::empty();
        while fuel > 0
            invariant
                init == old(self).state(start),
                forall|natives: spec_fn(nat) -> Result<Val, Error>|
                    #[trigger] extends(natives, got) ==> run(init, step_budget(), natives, 0) == run(
                        self.state(frame),
                        fuel as nat,
                        natives,
                        got.len(),
                    ),
            decreases fuel,
        {
            let ghost s = self.state(frame);
            let ghost k0 = got.len();
            let (res, Ghost(out)) = self.exec_step(&mut frame);
            let ghost got2 = if step(s) is CallNative { got.push(out) } else { got };
            proof {
                assert forall|natives: spec_fn(nat) -> Result<Val, Error>|
                    #[trigger] extends(natives, got2) implies extends(natives, got)
                    && run(s, fuel as nat, natives, k0) == match step_given(s, out) {
                        Step::Next(t) => run(t, (fuel - 1) as nat, natives, got2.len()),
                        Step::Halt(x) => Some(x),
                        _ => Some(Err(Error::Fault)),
                    } by {
                    assert forall|i: nat| i < got.len() implies natives(i) == got[i as int] by {
                        assert(got2[i as int] == got[i as int]);
                    }
                    if step(s) is CallNative {
                        assert(natives(k0) == got2[k0 as int]);
                    }
                    lemma_run_step(s, fuel as nat, natives, k0, out);
                }
            }
            match res {
                Some(x) => {
                    proof {
                        let natives = |i: nat|
                            if i < got2.len() {
                                got2[i as int]
                            } else {
                                Err(Error::StackUnderflow)
                            };
                        assert(extends(natives, got2));
                        assert(run(init, step_budget(), natives, 0) == Some(x));
                        assert(can_return(init, x));
                    }
                    return x;
                },
                None => {},
            }
            fuel = fuel - 1;
            proof {
                got = got2;
            }
        }
        proof {
            let natives = |i: nat| if i < got.len() { got[i as int] } else { Err(Error::StackUnderflow) };
            assert(extends(natives, got));
            assert(run(init, step_budget(), natives, 0) == Some(Err::<Val, Error>(Error::StepLimitExceeded)));
            assert(can_return(init, Err(Error::StepLimitExceeded)));
        }
        Err(Error::StepLimitExceeded)
    }

    /// Call a function value with the given arguments and return the result.
    ///
    /// A `Func` with as many parameters as there are arguments is run by the
    /// machine: the result is one that the semantics allows when every native
    /// function the program calls returns one of its possible results
    /// (exactly one result, when the program calls no native function). It
    /// is `StepLimitExceeded` only for a run still going after `u128::MAX`
    /// steps, and `Fault` only for a run that reaches a fault after a native
    /// function returned. A `NativeFunc` is called with the arguments and its
    /// result returned. Anything else is an error.
    ///
    /// The program must not reach a fault before it calls a native function
    /// (an index outside the stack, the constants or the code, or an integer
    /// overflow).
    pub fn run_with_func(&mut self, func_val: Val, args: Vec<Val>) -> (r: Result<Val, Error>)
        requires
            (match func_val {
                Val::Func(f) => f.arity() == args@.len() ==> no_early_fault(initial_state(f, args@)),
                _ => true,
            }),
        ensures
            (match func_val {
                Val::Func(f) => if f.arity() != args@.len() {
                    r == Err::<Val, Error>(
                        Error::WrongArgCount { expected: f.arity(), got: args@.len() as usize },
                    )
                } else {
                    can_return(initial_state(f, args@), r)
                },
                Val::NativeFunc(nf) => native_returns(nf, args@, r),
                v => r == Err::<Val, Error>(
                    Error::WrongType { expected: "Func or NativeFunc", got: type_name_of(v) },
                ),
            }),
    {
        let mut args = args;
        self.stack.clear();
        self.stack_frames.clear();
        self.stack.append(&mut args);
        match func_val {
            Val::Func(func) => {
                let arg_count = self.stack.len();
                if func.args() != arg_count {
                    return Err(Error::WrongArgCount { expected: func.args(), got: arg_count });
                }
                let frame = StackFrame { stack_start: 0, instruction_idx: 0, func };
                assert(self.state(frame) =~= initial_state(frame.func, self.stack@));
                self.run(frame)
            },
            Val::NativeFunc(nf) => call_native(&nf, self.stack.as_slice()),
            _ => Err(Error::WrongType { expected: "Func or NativeFunc", got: func_val.type_str() }),
        }
    }
}

impl Default for Vm {
    fn default() -> (vm: Self)
        ensures
            vm.stack_view() == Seq::<Val>::empty(),
            vm.callers_view() == Seq::<FrameView>::empty(),
    {
        Self::new()
    }
}

} // verus!
