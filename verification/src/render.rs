//! Text renderings of values, as `{:?}` would show them.
use vstd::prelude::*;
use vstd::string::StringExecFns;

use crate::trusted::{debug_quote, str_debug};
use crate::val::Val;

verus! {

/// The decimal digit `d` as a character.
pub open spec fn digit_char(d: int) -> char {
    ((d + 48) as u32) as char
}

/// The decimal digits of `n`, without leading zeros.
pub open spec fn decimal_nat(n: nat) -> Seq<char>
    decreases n,
{
    if n < 10 {
        seq![digit_char(n as int)]
    } else {
        decimal_nat(n / 10) + seq![digit_char((n % 10) as int)]
    }
}

/// The decimal notation of `x`, with a leading `-` when negative.
pub open spec fn decimal(x: int) -> Seq<char> {
    if x < 0 {
        seq!['-'] + decimal_nat((-x) as nat)
    } else {
        decimal_nat(x as nat)
    }
}

/// How `{:?}` shows a value.
pub open spec fn debug_text(v: Val) -> Seq<char> {
    match v {
        Val::Bool(b) => "Bool("@ + (if b { "true"@ } else { "false"@ }) + ")"@,
        Val::Int(x) => "Int("@ + decimal(x as int) + ")"@,
        Val::String(s) => "Str("@ + str_debug(s@) + ")"@,
        Val::Symbol(y) => "Symbol(Symbol("@ + str_debug(vstd::utf8::decode_utf8(y.text_bytes()))
            + "))"@,
        Val::Func(_) => "Func(..)"@,
        Val::NativeFunc(_) => "NativeFunc(..)"@,
    }
}

/// The decimal digit `d`.
fn digit_str(d: u64) -> (s: &'static str)
    requires
        d < 10,
    ensures
        s@ == seq![digit_char(d as int)],
{
    proof {
        reveal_strlit("0");
        reveal_strlit("1");
        reveal_strlit("2");
        reveal_strlit("3");
        reveal_strlit("4");
        reveal_strlit("5");
        reveal_strlit("6");
        reveal_strlit("7");
        reveal_strlit("8");
        reveal_strlit("9");
    }
    match d {
        0 => "0",
        1 => "1",
        2 => "2",
        3 => "3",
        4 => "4",
        5 => "5",
        6 => "6",
        7 => "7",
        8 => "8",
        _ => "9",
    }
}

/// The decimal digits of `n`.
fn nat_text(n: u64) -> (r: String)
    ensures
        r@ == decimal_nat(n as nat),
    decreases n,
{
    if n < 10 {
        String::from_str(digit_str(n))
    } else {
        let mut s = nat_text(n / 10);
        s.append(digit_str(n % 10));
        s
    }
}

/// The decimal notation of `x`.
fn int_text(x: i64) -> (r: String)
    ensures
        r@ == decimal(x as int),
{
    if x < 0 {
        proof {
            reveal_strlit("-");
        }
        let m: u64 = ((-(x + 1)) as u64) + 1;
        String::from_str("-").concat(nat_text(m).as_str())
    } else {
        nat_text(x as u64)
    }
}

impl Val {
    /// The value as `{:?}` shows it.
    pub fn debug_string(&self) -> (r: String)
        ensures
            r@ == debug_text(*self),
    {
        match self {
            Val::Bool(b) => String::from_str("Bool(").concat(if *b { "true" } else { "false" }).concat(")"),
            Val::Int(x) => String::from_str("Int(").concat(int_text(*x).as_str()).concat(")"),
            Val::String(s) => String::from_str("Str(").concat(debug_quote(s.as_str()).as_str()).concat(")"),
            Val::Symbol(y) => {
                let t = y.as_str();
                proof {
                    vstd::utf8::encode_utf8_decode_utf8(t@);
                }
                String::from_str("Symbol(Symbol(").concat(debug_quote(t).as_str()).concat("))")
            },
            Val::Func(_) => String::from_str("Func(..)"),
            Val::NativeFunc(_) => String::from_str("NativeFunc(..)"),
        }
    }
}

} // verus!
