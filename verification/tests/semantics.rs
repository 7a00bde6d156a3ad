use interpreter::{
    make_fib, Binop, Error, Func, Instruction, NativeFunc, RcString, Symbol, Val, Vm,
};

fn run(code: Vec<Instruction>, constants: Vec<Val>) -> Result<Val, Error> {
    let mut vm = Vm::new();
    vm.run_with_func(Func::new(0, code, constants).into(), vec![])
}

fn fib_of(n: i64) -> Result<Val, Error> {
    let mut vm = Vm::new();
    vm.run_with_func(make_fib(), vec![Val::Int(n)])
}

#[test]
fn fib_of_twenty_five_is_exact() {
    assert_eq!(fib_of(25), Ok(Val::Int(75025)));
}

#[test]
fn fib_of_negative_is_itself() {
    assert_eq!(fib_of(-3), Ok(Val::Int(-3)));
}

#[test]
fn fib_with_two_arguments_is_refused() {
    let mut vm = Vm::new();
    assert_eq!(
        vm.run_with_func(make_fib(), vec![Val::Int(1), Val::Int(2)]),
        Err(Error::WrongArgCount { expected: 1, got: 2 })
    );
}

#[test]
fn same_string_twice_is_equal() {
    let code = vec![
        Instruction::LoadConst(0),
        Instruction::LoadConst(0),
        Instruction::Binop(Binop::Eq),
        Instruction::Return,
    ];
    assert_eq!(run(code, vec!["abc".into()]), Ok(Val::Bool(true)));
}

#[test]
fn equal_texts_in_two_strings_are_equal() {
    let code = vec![
        Instruction::LoadConst(0),
        Instruction::LoadConst(1),
        Instruction::Binop(Binop::Eq),
        Instruction::Return,
    ];
    assert_eq!(run(code, vec!["abc".into(), String::from("abc").into()]), Ok(Val::Bool(true)));
}

#[test]
fn different_strings_are_not_equal() {
    let code = vec![
        Instruction::LoadConst(0),
        Instruction::LoadConst(1),
        Instruction::Binop(Binop::NotEq),
        Instruction::Return,
    ];
    assert_eq!(run(code, vec!["abc".into(), "abd".into()]), Ok(Val::Bool(true)));
}

#[test]
fn function_constant_equals_itself() {
    let inner = Func::new(1, vec![Instruction::Return], vec![Val::Int(3), "s".into()]);
    let code = vec![
        Instruction::LoadConst(0),
        Instruction::LoadConst(0),
        Instruction::Binop(Binop::Eq),
        Instruction::Return,
    ];
    assert_eq!(run(code, vec![inner.into()]), Ok(Val::Bool(true)));
}

#[test]
fn functions_with_different_constants_differ() {
    let f = Func::new(0, vec![Instruction::Return], vec![Val::Int(3)]);
    let g = Func::new(0, vec![Instruction::Return], vec![Val::Int(4)]);
    let code = vec![
        Instruction::LoadConst(0),
        Instruction::LoadConst(1),
        Instruction::Binop(Binop::Eq),
        Instruction::Return,
    ];
    assert_eq!(run(code, vec![f.into(), g.into()]), Ok(Val::Bool(false)));
}

#[test]
fn symbols_compare_by_bytes() {
    let code = vec![
        Instruction::LoadConst(0),
        Instruction::LoadConst(1),
        Instruction::Binop(Binop::Eq),
        Instruction::Return,
    ];
    let a = Symbol::new("hi").unwrap();
    let b = Symbol::new("hi").unwrap();
    assert_eq!(run(code, vec![a.into(), b.into()]), Ok(Val::Bool(true)));
}

fn one(_args: &[Val]) -> Result<Val, Error> {
    Ok(Val::Int(1))
}

fn two(_args: &[Val]) -> Result<Val, Error> {
    Ok(Val::Int(2))
}

fn failing(_args: &[Val]) -> Result<Val, Error> {
    Err(Error::DivideByZero)
}

fn count_args(args: &[Val]) -> Result<Val, Error> {
    Ok(Val::Int(args.len() as i64))
}

#[test]
fn native_function_equals_itself_and_not_another() {
    let code = vec![
        Instruction::LoadConst(0),
        Instruction::LoadConst(0),
        Instruction::Binop(Binop::Eq),
        Instruction::LoadConst(0),
        Instruction::LoadConst(1),
        Instruction::Binop(Binop::Eq),
        Instruction::Binop(Binop::NotEq),
        Instruction::Return,
    ];
    let constants = vec![Val::NativeFunc(NativeFunc(one)), Val::NativeFunc(NativeFunc(two))];
    assert_eq!(run(code, constants), Ok(Val::Bool(true)));
}

#[test]
fn native_error_stops_the_machine() {
    let code = vec![Instruction::LoadConst(0), Instruction::Eval(0), Instruction::Return];
    assert_eq!(run(code, vec![Val::NativeFunc(NativeFunc(failing))]), Err(Error::DivideByZero));
}

#[test]
fn native_receives_only_its_arguments() {
    let code = vec![
        Instruction::LoadInt(7),
        Instruction::LoadInt(8),
        Instruction::LoadInt(9),
        Instruction::LoadConst(0),
        Instruction::Eval(2),
        Instruction::Binop(Binop::Add),
        Instruction::Return,
    ];
    // [7, 8, 9] -> native gets [8, 9] and returns 2 -> [7, 2] -> 9
    assert_eq!(run(code, vec![Val::NativeFunc(NativeFunc(count_args))]), Ok(Val::Int(9)));
}

#[test]
fn local_read_after_write_gives_written_value() {
    let mut vm = Vm::new();
    let func = Func::new(
        2,
        vec![
            Instruction::LoadInt(-9),
            Instruction::SetLocal(1),
            Instruction::LoadLocal(1),
            Instruction::LoadLocal(0),
            Instruction::Binop(Binop::Sub),
            Instruction::Return,
        ],
        vec![],
    );
    assert_eq!(
        vm.run_with_func(func.into(), vec![Val::Int(1), Val::Int(2)]),
        Ok(Val::Int(-10))
    );
}

#[test]
fn division_rounds_toward_zero() {
    let div = |a: i8, b: i8| {
        run(
            vec![
                Instruction::LoadInt(a),
                Instruction::LoadInt(b),
                Instruction::Binop(Binop::Div),
                Instruction::Return,
            ],
            vec![],
        )
    };
    assert_eq!(div(-7, 2), Ok(Val::Int(-3)));
    assert_eq!(div(7, -2), Ok(Val::Int(-3)));
    assert_eq!(div(-7, -2), Ok(Val::Int(3)));
    assert_eq!(div(7, 2), Ok(Val::Int(3)));
}

#[test]
fn multiplication_of_negatives() {
    let code = vec![
        Instruction::LoadInt(-6),
        Instruction::LoadInt(-7),
        Instruction::Binop(Binop::Mul),
        Instruction::Return,
    ];
    assert_eq!(run(code, vec![]), Ok(Val::Int(42)));
}

#[test]
fn comparison_with_wrong_top_type_names_it() {
    let code = vec![
        Instruction::LoadConst(0),
        Instruction::LoadInt(1),
        Instruction::Binop(Binop::Lt),
        Instruction::Return,
    ];
    assert_eq!(
        run(code, vec![Val::Bool(true)]),
        Err(Error::WrongType { expected: "Int", got: "Bool" })
    );
}

#[test]
fn dup_pushes_n_copies() {
    let code = vec![
        Instruction::LoadInt(5),
        Instruction::Dup(3),
        Instruction::Binop(Binop::Add),
        Instruction::Binop(Binop::Add),
        Instruction::Binop(Binop::Add),
        Instruction::Return,
    ];
    assert_eq!(run(code, vec![]), Ok(Val::Int(20)));
}

#[test]
fn dup_on_empty_stack_underflows() {
    assert_eq!(run(vec![Instruction::Dup(1), Instruction::Return], vec![]), Err(Error::StackUnderflow));
}

#[test]
fn return_on_empty_stack_underflows() {
    assert_eq!(run(vec![Instruction::Return], vec![]), Err(Error::StackUnderflow));
}

#[test]
fn jump_if_false_falls_through() {
    let code = vec![
        Instruction::LoadConst(0),
        Instruction::JumpIf(1),
        Instruction::LoadInt(1),
        Instruction::LoadInt(2),
        Instruction::Return,
    ];
    assert_eq!(run(code, vec![Val::Bool(false)]), Ok(Val::Int(2)));
}

#[test]
fn call_returns_to_caller_stack() {
    // inner(x) = x + 100
    let inner = Func::new(
        1,
        vec![Instruction::LoadLocal(0), Instruction::AddN(100), Instruction::Return],
        vec![],
    );
    let code = vec![
        Instruction::LoadInt(1),
        Instruction::LoadInt(2),
        Instruction::LoadConst(0),
        Instruction::Eval(1),
        Instruction::Binop(Binop::Sub),
        Instruction::Return,
    ];
    // [1, 2] -> inner(2) = 102 -> [1, 102] -> 1 - 102
    assert_eq!(run(code, vec![inner.into()]), Ok(Val::Int(-101)));
}

#[test]
fn string_length_counts_utf8_bytes() {
    let code = vec![Instruction::LoadConst(0), Instruction::StringLength, Instruction::Return];
    assert_eq!(run(code, vec!["héllo".into()]), Ok(Val::Int(6)));
}

#[test]
fn symbol_round_trips_multibyte_text() {
    let s = Symbol::new("héllo").unwrap();
    assert_eq!(s.as_str(), "héllo");
}

#[test]
fn symbol_drops_trailing_nul_padding() {
    let s = Symbol::new("ab\0").unwrap();
    assert_eq!(s.as_str(), "ab");
    let code = vec![Instruction::LoadConst(0), Instruction::StringLength, Instruction::Return];
    assert_eq!(run(code, vec![s.into()]), Ok(Val::Int(2)));
}

#[test]
fn rc_string_clone_keeps_text() {
    let s = RcString::new("twin");
    let t = s.clone();
    assert!(s.same_text(&t));
    assert_eq!(t.as_str(), "twin");
}

#[test]
fn debug_string_matches_debug_format() {
    assert_eq!(Val::Int(-42).debug_string(), "Int(-42)");
    assert_eq!(Val::Int(0).debug_string(), "Int(0)");
    assert_eq!(Val::Int(i64::MIN).debug_string(), "Int(-9223372036854775808)");
    assert_eq!(Val::Bool(true).debug_string(), "Bool(true)");
    let q: Val = "a\"b".into();
    assert_eq!(q.debug_string(), "Str(\"a\\\"b\")");
    let y: Val = Symbol::new("hi").unwrap().into();
    assert_eq!(y.debug_string(), "Symbol(Symbol(\"hi\"))");
    let f: Val = Func::new(0, vec![], vec![]).into();
    assert_eq!(f.debug_string(), "Func(..)");
}

#[test]
fn non_function_bool_is_refused() {
    let mut vm = Vm::new();
    assert_eq!(
        vm.run_with_func(Val::Bool(false), vec![]),
        Err(Error::WrongType { expected: "Func or NativeFunc", got: "Bool" })
    );
}

#[test]
fn truthiness_is_everything_but_false() {
    assert!(!Val::Bool(false).is_truthy());
    assert!(Val::Bool(true).is_truthy());
    assert!(Val::Int(0).is_truthy());
    assert!(Val::from("").is_truthy());
}

#[test]
fn vm_is_reusable_after_an_error() {
    let mut vm = Vm::new();
    let bad = Func::new(0, vec![Instruction::Return], vec![]);
    assert_eq!(vm.run_with_func(bad.into(), vec![]), Err(Error::StackUnderflow));
    assert_eq!(vm.run_with_func(make_fib(), vec![Val::Int(10)]), Ok(Val::Int(55)));
}

fn double(args: &[Val]) -> Result<Val, Error> {
    match args {
        [Val::Int(x)] => Ok(Val::Int(x * 2)),
        _ => Err(Error::WrongArgCount { expected: 1, got: args.len() }),
    }
}

fn largest(_args: &[Val]) -> Result<Val, Error> {
    Ok(Val::Int(i64::MAX))
}

#[test]
fn native_result_feeds_the_program() {
    let code = vec![
        Instruction::LoadInt(5),
        Instruction::LoadConst(0),
        Instruction::Eval(1),
        Instruction::AddN(1),
        Instruction::Return,
    ];
    assert_eq!(run(code, vec![Val::NativeFunc(NativeFunc(double))]), Ok(Val::Int(11)));
}

#[test]
fn overflow_after_native_is_a_fault() {
    let code = vec![
        Instruction::LoadConst(0),
        Instruction::Eval(0),
        Instruction::AddN(1),
        Instruction::Return,
    ];
    assert_eq!(run(code, vec![Val::NativeFunc(NativeFunc(largest))]), Err(Error::Fault));
}

#[test]
fn binop_overflow_after_native_is_a_fault() {
    let code = vec![
        Instruction::LoadConst(0),
        Instruction::Eval(0),
        Instruction::LoadInt(1),
        Instruction::Binop(Binop::Add),
        Instruction::Return,
    ];
    assert_eq!(run(code, vec![Val::NativeFunc(NativeFunc(largest))]), Err(Error::Fault));
}

/// `f(n) = 100` for `n == 0`, else `f(n - 1) + 1`, through `EvalRecursive`.
fn count_down() -> Func {
    Func::new(
        1,
        vec![
            Instruction::LoadLocal(0),
            Instruction::Equal(0),
            Instruction::JumpIf(5),
            Instruction::LoadLocal(0),
            Instruction::AddN(-1),
            Instruction::EvalRecursive(1),
            Instruction::AddN(1),
            Instruction::Return,
            Instruction::LoadInt(100),
            Instruction::Return,
        ],
        vec![],
    )
}

#[test]
fn eval_recursive_matches_eval_of_the_same_function() {
    let mut vm = Vm::new();
    assert_eq!(vm.run_with_func(count_down().into(), vec![Val::Int(3)]), Ok(Val::Int(103)));
    let caller = Func::new(
        1,
        vec![
            Instruction::LoadLocal(0),
            Instruction::LoadConst(0),
            Instruction::Eval(1),
            Instruction::Return,
        ],
        vec![count_down().into()],
    );
    assert_eq!(vm.run_with_func(caller.into(), vec![Val::Int(3)]), Ok(Val::Int(103)));
}

#[test]
fn not_eq_negates_eq() {
    let eq = vec![Instruction::LoadInt(3), Instruction::LoadInt(5), Instruction::Binop(Binop::Eq), Instruction::Return];
    let ne = vec![Instruction::LoadInt(3), Instruction::LoadInt(5), Instruction::Binop(Binop::NotEq), Instruction::Return];
    assert_eq!(run(eq, vec![]), Ok(Val::Bool(false)));
    assert_eq!(run(ne, vec![]), Ok(Val::Bool(true)));
}

#[test]
fn native_called_directly_gets_the_arguments() {
    let mut vm = Vm::new();
    assert_eq!(
        vm.run_with_func(Val::NativeFunc(NativeFunc(count_args)), vec![Val::Int(1), Val::Int(2), Val::Int(3)]),
        Ok(Val::Int(3))
    );
}

#[test]
fn eval_with_too_few_arguments_underflows() {
    let callee = Func::new(1, vec![Instruction::LoadLocal(0), Instruction::Return], vec![]);
    let code = vec![Instruction::LoadConst(0), Instruction::Eval(1), Instruction::Return];
    assert_eq!(run(code, vec![callee.into()]), Err(Error::StackUnderflow));
}

#[test]
fn native_eval_with_too_few_arguments_underflows() {
    let code = vec![Instruction::LoadInt(1), Instruction::LoadConst(0), Instruction::Eval(2), Instruction::Return];
    assert_eq!(run(code, vec![Val::NativeFunc(NativeFunc(count_args))]), Err(Error::StackUnderflow));
}

#[test]
fn eval_recursive_with_too_few_arguments_underflows() {
    let mut vm = Vm::new();
    let f = Func::new(1, vec![Instruction::EvalRecursive(2), Instruction::Return], vec![]);
    assert_eq!(vm.run_with_func(f.into(), vec![Val::Int(1)]), Err(Error::StackUnderflow));
}

#[test]
fn return_from_callee_without_a_value_underflows() {
    let callee = Func::new(0, vec![Instruction::Return], vec![]);
    let code = vec![
        Instruction::LoadInt(1),
        Instruction::LoadConst(0),
        Instruction::Eval(0),
        Instruction::Return,
    ];
    assert_eq!(run(code, vec![callee.into()]), Err(Error::StackUnderflow));
}
