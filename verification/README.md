# interpreter

A stack-based bytecode virtual machine, written in Verus.

- `src/machine.rs` gives the machine a small-step semantics: what each
  instruction does to the operand stack, the suspended callers and the running
  frame, when it stops with a result, and when it would fault.
- `src/vm.rs` is the executable machine (`Vm::run_with_func`), proved to
  follow that semantics step by step.
- `src/val.rs` holds the values (integers, booleans, strings, symbols,
  functions, native functions) and their equality; `src/func.rs` the
  instructions and the Fibonacci function of `make_fib`.
- `src/laws.rs` proves properties of the whole: the Fibonacci function
  computes `fib(n)`, runs without native calls have one result, a local reads
  back what was written, symbols give back their text.
- `src/trusted.rs` holds every call into code that is not verified here
  (`compact_str`, a few std functions, and native functions).
- `app/main.rs` runs the Fibonacci example.
