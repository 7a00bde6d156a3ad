use interpreter::{Error, NativeFunc, RcString, Symbol, Val, Vm, MAX_SYMBOL_LEN};

#[test]
fn val_with_variants_is_within_sixteen_bytes() {
    assert!(
        std::mem::size_of::<Val>() <= 16,
        "Val size is {}, expected <= 16",
        std::mem::size_of::<Val>()
    );
}

#[test]
fn str_with_content_returns_valid_metadata() {
    let s = RcString::new("hello");
    assert_eq!(s.len(), 5);
    assert_eq!(&*s, "hello");

    let v: Val = "world".into();
    assert_eq!(v.type_str(), "Str");
    assert_eq!(v.debug_string(), "Str(\"world\")");
}

#[test]
fn symbol_with_valid_length_succeeds() {
    let s = Symbol::new("short").unwrap();
    assert_eq!(s.as_str(), "short");
    assert_eq!(s.as_str().len(), 5);
}

#[test]
fn symbol_with_max_length_succeeds() {
    let max_str = "a".repeat(MAX_SYMBOL_LEN);
    let s = Symbol::new(&max_str).unwrap();
    assert_eq!(s.as_str(), max_str);
    assert_eq!(s.as_str().len(), MAX_SYMBOL_LEN);
}

#[test]
fn symbol_with_exceeding_length_fails() {
    let too_long = "a".repeat(MAX_SYMBOL_LEN + 1);
    let res = Symbol::new(&too_long);
    assert_eq!(
        res,
        Err(Error::SymbolTooLong {
            len: MAX_SYMBOL_LEN + 1
        })
    );
}

fn add_native(args: &[Val]) -> Result<Val, Error> {
    if args.len() != 2 {
        return Err(Error::WrongArgCount {
            expected: 2,
            got: args.len(),
        });
    }
    let (Val::Int(a), Val::Int(b)) = (&args[0], &args[1]) else {
        return Err(Error::WrongType {
            expected: "Int",
            got: "other",
        });
    };
    Ok(Val::Int(a + b))
}

#[test]
fn native_func_with_addition_returns_sum() {
    let mut vm = Vm::new();
    let nf = Val::NativeFunc(NativeFunc(add_native));

    let result = vm.run_with_func(nf, vec![Val::Int(5), Val::Int(7)]);
    assert_eq!(result, Ok(Val::Int(12)));
}
