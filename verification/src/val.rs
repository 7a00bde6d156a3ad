//! Values of the machine, and the functions they can hold.
use std::rc::Rc;

use compact_str::CompactString;
use vstd::prelude::*;
use vstd::std_specs::cmp::PartialEqSpecImpl;
use vstd::std_specs::convert::FromSpecImpl;
use vstd::string::StringSliceAdditionalSpecFns;

use crate::func::Instruction;
use crate::trusted::{
    compact_as_str, compact_eq, compact_new, compact_text, rc_clone, same_native, str_from_utf8,
};
use crate::Error;

verus! {

/// The maximum size of a symbol in bytes.
pub const MAX_SYMBOL_LEN: usize = 15;

/// A native Rust function callable from the machine.
#[verifier::external_body]
#[derive(Copy, Debug)]
pub struct NativeFunc(pub fn(&[Val]) -> Result<Val, Error>);

impl Clone for NativeFunc {
    fn clone(&self) -> (r: Self)
        ensures
            r == *self,
    {
        *self
    }
}

impl PartialEq for NativeFunc {
    fn eq(&self, other: &Self) -> (r: bool) {
        same_native(self, other)
    }
}

impl PartialEqSpecImpl for NativeFunc {
    open spec fn obeys_eq_spec() -> bool {
        true
    }

    open spec fn eq_spec(&self, other: &NativeFunc) -> bool {
        *self == *other
    }
}

/// An immutable, reference-counted string.
#[derive(PartialEq, Eq, PartialOrd, Ord, Hash, Debug)]
pub struct RcString(Rc<CompactString>);

impl View for RcString {
    type V = Seq<char>;

    closed spec fn view(&self) -> Seq<char> {
        compact_text(*self.0)
    }
}

impl RcString {
    /// Creates a string holding the characters of `s`.
    pub fn new(s: &str) -> (r: RcString)
        ensures
            r@ == s@,
    {
        RcString(Rc::new(compact_new(s)))
    }

    /// The held text.
    pub fn as_str(&self) -> (r: &str)
        ensures
            r@ == self@,
    {
        compact_as_str(&*self.0)
    }

    /// The length of the held text in bytes of UTF-8.
    pub fn len(&self) -> (n: usize)
        ensures
            n == vstd::utf8::encode_utf8(self@).len() as usize,
    {
        self.as_str().len()
    }

    /// Whether two strings hold the same text.
    pub fn same_text(&self, other: &RcString) -> (r: bool)
        ensures
            r == (self@ == other@),
    {
        compact_eq(&*self.0, &*other.0)
    }
}

impl Clone for RcString {
    fn clone(&self) -> (r: Self)
        ensures
            r == *self,
    {
        RcString(rc_clone(&self.0))
    }
}

/// Trailing zero bytes removed.
pub open spec fn trim_nul(b: Seq<u8>) -> Seq<u8>
    decreases b.len(),
{
    if b.len() > 0 && b.last() == 0 {
        trim_nul(b.drop_last())
    } else {
        b
    }
}

/// A symbol, backed by up to `MAX_SYMBOL_LEN` bytes of UTF-8 data.
#[derive(Clone, Copy, PartialEq, Debug)]
pub struct Symbol([u8; MAX_SYMBOL_LEN]);

impl View for Symbol {
    type V = Seq<u8>;

    closed spec fn view(&self) -> Seq<u8> {
        self.0@
    }
}

impl Symbol {
    /// The stored bytes are valid UTF-8 (text padded with zero bytes).
    #[verifier::type_invariant]
    closed spec fn well_formed(self) -> bool {
        vstd::utf8::valid_utf8(self.0@)
    }

    /// A symbol stores exactly `MAX_SYMBOL_LEN` bytes.
    pub proof fn lemma_view_len(self)
        ensures
            self@.len() == MAX_SYMBOL_LEN,
    {
    }

    /// The bytes of the symbol's text: the stored bytes without the zero padding.
    pub open spec fn text_bytes(self) -> Seq<u8> {
        trim_nul(self@)
    }

    /// Create a `Symbol` from a string slice. Returns an error if `s` is longer than
    /// `MAX_SYMBOL_LEN` bytes.
    pub fn new(s: &str) -> (r: Result<Symbol, Error>)
        ensures
            (match r {
                Ok(sym) => s.spec_bytes().len() <= MAX_SYMBOL_LEN && sym@ == zero_padded(
                    s.spec_bytes(),
                ),
                Err(e) => s.spec_bytes().len() > MAX_SYMBOL_LEN && e == (Error::SymbolTooLong {
                    len: s.spec_bytes().len() as usize,
                }),
            }),
    {
        let bytes = s.as_bytes();
        if bytes.len() > MAX_SYMBOL_LEN {
            return Err(Error::SymbolTooLong { len: bytes.len() });
        }
        let mut data = [0u8; MAX_SYMBOL_LEN];
        let mut i: usize = 0;
        while i < bytes.len()
            invariant
                i <= bytes@.len() <= MAX_SYMBOL_LEN,
                data@.len() == MAX_SYMBOL_LEN,
                forall|j: int| 0 <= j < i ==> data@[j] == bytes@[j],
                forall|j: int| i <= j < MAX_SYMBOL_LEN ==> data@[j] == 0u8,
            decreases bytes@.len() - i,
        {
            data[i] = bytes[i];
            i = i + 1;
        }
        assert(data@ =~= zero_padded(s.spec_bytes()));
        proof {
            lemma_padded_utf8(s@);
        }
        Ok(Symbol(data))
    }
}

/// `n` zero bytes.
pub open spec fn zeros(n: nat) -> Seq<u8> {
    Seq::new(n, |i: int| 0u8)
}

/// The bytes `b` followed by zero bytes up to `MAX_SYMBOL_LEN` in all.
pub open spec fn zero_padded(b: Seq<u8>) -> Seq<u8> {
    b + zeros((MAX_SYMBOL_LEN - b.len()) as nat)
}

/// `n` zero bytes are the UTF-8 encoding of `n` NUL characters.
proof fn lemma_zeros_encode(n: nat)
    ensures
        vstd::utf8::encode_utf8(Seq::new(n, |i: int| 0u32 as char)) == zeros(n),
    decreases n,
{
    let c = Seq::new(n, |i: int| 0u32 as char);
    if n > 0 {
        lemma_zeros_encode((n - 1) as nat);
        assert(c.drop_first() =~= Seq::new((n - 1) as nat, |i: int| 0u32 as char));
        assert(vstd::utf8::has_width_1_encoding(0u32)) by (bit_vector);
        assert(vstd::utf8::leading_byte_width_1(0u32) == 0u8) by (bit_vector);
        assert(c[0] as u32 == 0u32);
        assert(zeros(n) =~= seq![0u8] + zeros((n - 1) as nat));
    }
}

impl Symbol {
    /// The length in bytes of the symbol's text.
    pub fn text_len(&self) -> (n: usize)
        ensures
            n <= MAX_SYMBOL_LEN,
            self@.len() == MAX_SYMBOL_LEN,
            n == self.text_bytes().len(),
            self@.subrange(0, n as int) == self.text_bytes(),
            forall|j: int| n <= j < MAX_SYMBOL_LEN ==> self@[j] == 0u8,
    {
        let mut n: usize = MAX_SYMBOL_LEN;
        assert(self@.subrange(0, n as int) =~= self@);
        while n > 0 && self.0[n - 1] == 0
            invariant
                n <= MAX_SYMBOL_LEN,
                self@.len() == MAX_SYMBOL_LEN,
                trim_nul(self@) == trim_nul(self@.subrange(0, n as int)),
                forall|j: int| n <= j < MAX_SYMBOL_LEN ==> self@[j] == 0u8,
            decreases n,
        {
            assert(self@.subrange(0, n as int).drop_last() =~= self@.subrange(0, n - 1));
            n = n - 1;
        }
        n
    }

    /// The symbol's text.
    pub fn as_str(&self) -> (r: &str)
        ensures
            r.spec_bytes() == self.text_bytes(),
    {
        proof {
            use_type_invariant(self);
        }
        let n = self.text_len();
        let bytes = vstd::slice::slice_subrange(self.0.as_slice(), 0, n);
        proof {
            lemma_prefix_before_zeros_utf8(self@, n as int);
        }
        match str_from_utf8(bytes) {
            Ok(s) => s,
            // Never taken: the bytes before the padding are valid UTF-8.
            Err(_) => "",
        }
    }

    /// Whether two symbols hold the same bytes.
    pub fn same_bytes(&self, other: &Symbol) -> (r: bool)
        ensures
            r == (self@ == other@),
    {
        let mut i: usize = 0;
        while i < MAX_SYMBOL_LEN
            invariant
                i <= MAX_SYMBOL_LEN,
                self@.len() == MAX_SYMBOL_LEN,
                other@.len() == MAX_SYMBOL_LEN,
                forall|j: int| 0 <= j < i ==> self@[j] == other@[j],
            decreases MAX_SYMBOL_LEN - i,
        {
            if self.0[i] != other.0[i] {
                return false;
            }
            i = i + 1;
        }
        assert(self@ =~= other@);
        true
    }
}

/// In valid UTF-8, the bytes before a run of zero bytes that lasts to the end
/// are valid UTF-8.
proof fn lemma_prefix_before_zeros_utf8(b: Seq<u8>, n: int)
    requires
        vstd::utf8::valid_utf8(b),
        0 <= n <= b.len(),
        forall|j: int| n <= j < b.len() ==> b[j] == 0u8,
    ensures
        vstd::utf8::valid_utf8(b.subrange(0, n)),
{
    vstd::utf8::is_char_boundary_start_end_of_seq(b);
    if n < b.len() {
        let z = b[n];
        assert(!vstd::utf8::is_continuation_byte(z)) by (bit_vector)
            requires
                z == 0u8,
        ;
        vstd::utf8::is_char_boundary_iff_not_is_continuation_byte(b, n);
    }
    vstd::utf8::valid_utf8_split(b, n);
}

/// Text encoded as UTF-8, followed by zero bytes, is valid UTF-8.
proof fn lemma_padded_utf8(c: Seq<char>)
    ensures
        vstd::utf8::valid_utf8(zero_padded(vstd::utf8::encode_utf8(c))),
{
    let b = vstd::utf8::encode_utf8(c);
    let n = (MAX_SYMBOL_LEN - b.len()) as nat;
    lemma_zeros_encode(n);
    vstd::utf8::encode_utf8_valid_utf8(c);
    vstd::utf8::encode_utf8_valid_utf8(Seq::new(n, |i: int| 0u32 as char));
    vstd::utf8::valid_utf8_concat(b, zeros(n));
}

/// A reference-counted function containing bytecode and constants.
#[derive(PartialEq, Debug)]
pub struct Func(Rc<FuncInner>);

#[derive(PartialEq, Debug)]
struct FuncInner {
    arg_count: usize,
    instructions: Vec<Instruction>,
    constants: Vec<Val>,
}

impl Func {
    /// The number of arguments the function expects.
    pub closed spec fn arity(&self) -> usize {
        self.0.arg_count
    }

    /// The function's bytecode.
    pub closed spec fn code(&self) -> Seq<Instruction> {
        self.0.instructions@
    }

    /// The function's constant table.
    pub closed spec fn consts(&self) -> Seq<Val> {
        self.0.constants@
    }

    /// Create a new function with the given argument count, instructions, and constants.
    pub fn new(arg_count: usize, instructions: Vec<Instruction>, constants: Vec<Val>) -> (f: Func)
        ensures
            f.arity() == arg_count,
            f.code() == instructions@,
            f.consts() == constants@,
    {
        Func(Rc::new(FuncInner { arg_count, instructions, constants }))
    }

    /// The number of arguments the function expects.
    pub fn args(&self) -> (n: usize)
        ensures
            n == self.arity(),
    {
        self.0.arg_count
    }

    /// Constant values referenced by `LoadConst` instructions.
    pub fn constants(&self) -> (c: &[Val])
        ensures
            c@ == self.consts(),
    {
        self.0.constants.as_slice()
    }

    /// The number of instructions.
    pub fn code_len(&self) -> (n: usize)
        ensures
            n == self.code().len(),
    {
        self.0.instructions.len()
    }

    /// The instruction at the given index.
    pub fn instruction(&self, idx: usize) -> (i: Instruction)
        requires
            idx < self.code().len(),
        ensures
            i == self.code()[idx as int],
    {
        self.0.instructions[idx]
    }

    /// The constant at the given index.
    pub fn constant(&self, idx: usize) -> (v: &Val)
        requires
            idx < self.consts().len(),
        ensures
            *v == self.consts()[idx as int],
    {
        &self.0.constants[idx]
    }
}

impl Clone for Func {
    fn clone(&self) -> (r: Self)
        ensures
            r == *self,
    {
        Func(rc_clone(&self.0))
    }
}

/// A value in the interpreter.
#[derive(PartialEq, Debug)]
pub enum Val {
    Bool(bool),
    Int(i64),
    String(RcString),
    Symbol(Symbol),
    Func(Func),
    NativeFunc(NativeFunc),
}

/// The name of a value's type, as it appears in errors.
pub open spec fn type_name_of(v: Val) -> &'static str {
    match v {
        Val::Bool(_) => "Bool",
        Val::Int(_) => "Int",
        Val::String(_) => "Str",
        Val::Symbol(_) => "Symbol",
        Val::Func(_) => "Func",
        Val::NativeFunc(_) => "NativeFunc",
    }
}

/// Every value but `false` counts as true.
pub open spec fn truthy(v: Val) -> bool {
    !(v matches Val::Bool(false))
}

/// Whether two values are equal: the same variant holding equal contents,
/// where strings compare by text, symbols by bytes, functions by argument
/// count, code and constants, and native functions by identity.
pub open spec fn val_equal(a: Val, b: Val) -> bool
    decreases a,
{
    match a {
        Val::Bool(x) => b matches Val::Bool(y) && x == y,
        Val::Int(x) => b matches Val::Int(y) && x == y,
        Val::String(x) => b matches Val::String(y) && x@ == y@,
        Val::Symbol(x) => b matches Val::Symbol(y) && x@ == y@,
        Val::NativeFunc(x) => b matches Val::NativeFunc(y) && x == y,
        Val::Func(f) => match b {
            Val::Func(g) => {
                &&& f.arity() == g.arity()
                &&& f.code() == g.code()
                &&& vals_equal(f.consts(), g.consts())
            },
            _ => false,
        },
    }
}

/// Two sequences of values are equal element by element.
pub open spec fn vals_equal(s: Seq<Val>, t: Seq<Val>) -> bool
    decreases s,
{
    &&& s.len() == t.len()
    &&& s.len() > 0 ==> {
        &&& val_equal(s[0], t[0])
        &&& vals_equal(s.drop_first(), t.drop_first())
    }
}

proof fn lemma_vals_equal(s: Seq<Val>, t: Seq<Val>)
    ensures
        vals_equal(s, t) == (s.len() == t.len() && forall|i: int|
            0 <= i < s.len() ==> #[trigger] val_equal(s[i], t[i])),
    decreases s.len(),
{
    if s.len() > 0 && s.len() == t.len() {
        lemma_vals_equal(s.drop_first(), t.drop_first());
        if vals_equal(s, t) {
            assert forall|i: int| 0 <= i < s.len() implies #[trigger] val_equal(s[i], t[i]) by {
                if i > 0 {
                    assert(s.drop_first()[i - 1] == s[i]);
                    assert(t.drop_first()[i - 1] == t[i]);
                }
            }
        }
        if forall|i: int| 0 <= i < s.len() ==> #[trigger] val_equal(s[i], t[i]) {
            assert(val_equal(s[0], t[0]));
            assert forall|i: int| 0 <= i < s.len() - 1 implies #[trigger] val_equal(
                s.drop_first()[i],
                t.drop_first()[i],
            ) by {
                assert(val_equal(s[i + 1], t[i + 1]));
            }
        }
    }
}

/// Every value is equal to itself (`Binop(Eq)` of a value with itself is true).
pub proof fn law_val_equal_reflexive(v: Val)
    ensures
        val_equal(v, v),
    decreases v,
{
    if let Val::Func(f) = v {
        let c = f.0.constants;
        assert forall|i: int| 0 <= i < c@.len() implies #[trigger] val_equal(c@[i], c@[i]) by {
            vstd::std_specs::vec::axiom_vec_index_decreases(c, i);
            assert(decreases_to!(v => c[i]));
            law_val_equal_reflexive(c@[i]);
        }
        lemma_vals_equal(c@, c@);
    }
}

/// Which values are equal: those of the same variant holding the same
/// boolean or integer, the same text (strings), the same bytes (symbols), the
/// same native function, or functions with the same argument count and code
/// whose constants are equal one by one; values of different variants never are.
pub proof fn law_val_equal_cases(a: Val, b: Val)
    ensures
        val_equal(a, b) == match (a, b) {
            (Val::Bool(x), Val::Bool(y)) => x == y,
            (Val::Int(x), Val::Int(y)) => x == y,
            (Val::String(x), Val::String(y)) => x@ == y@,
            (Val::Symbol(x), Val::Symbol(y)) => x@ == y@,
            (Val::NativeFunc(x), Val::NativeFunc(y)) => x == y,
            (Val::Func(f), Val::Func(g)) => {
                &&& f.arity() == g.arity()
                &&& f.code() == g.code()
                &&& f.consts().len() == g.consts().len()
                &&& forall|i: int|
                    0 <= i < f.consts().len() ==> #[trigger] val_equal(f.consts()[i], g.consts()[i])
            },
            _ => false,
        },
{
    if let (Val::Func(f), Val::Func(g)) = (a, b) {
        lemma_vals_equal(f.consts(), g.consts());
    }
}

/// Equality of values does not depend on the order of the operands.
pub proof fn law_val_equal_symmetric(a: Val, b: Val)
    ensures
        val_equal(a, b) == val_equal(b, a),
    decreases a,
{
    match (a, b) {
        (Val::Func(f), Val::Func(g)) => {
            let c = f.0.constants;
            let d = g.0.constants;
            if c@.len() == d@.len() {
                assert forall|i: int|
                    #![trigger val_equal(c@[i], d@[i])]
                    #![trigger val_equal(d@[i], c@[i])]
                    0 <= i < c@.len() implies val_equal(c@[i], d@[i]) == val_equal(d@[i], c@[i]) by {
                    vstd::std_specs::vec::axiom_vec_index_decreases(c, i);
                    assert(decreases_to!(a => c[i]));
                    law_val_equal_symmetric(c@[i], d@[i]);
                }
                lemma_vals_equal(c@, d@);
                lemma_vals_equal(d@, c@);
            }
        },
        (Val::Bool(x), _) => {},
        (Val::Int(x), _) => {},
        (Val::String(x), _) => {},
        (Val::Symbol(x), _) => {},
        (Val::NativeFunc(x), _) => {},
        (Val::Func(f), _) => {},
    }
}

impl Val {
    /// The name of the value's type.
    pub fn type_str(&self) -> (r: &'static str)
        ensures
            r == type_name_of(*self),
    {
        match self {
            Val::Bool(_) => "Bool",
            Val::Int(_) => "Int",
            Val::String(_) => "Str",
            Val::Symbol(_) => "Symbol",
            Val::Func(_) => "Func",
            Val::NativeFunc(_) => "NativeFunc",
        }
    }

    /// Every value but `Bool(false)` is truthy.
    pub fn is_truthy(&self) -> (r: bool)
        ensures
            r == truthy(*self),
    {
        !matches!(self, Val::Bool(false))
    }

    /// Whether two values are equal (see `val_equal`).
    pub fn equals(&self, other: &Val) -> (r: bool)
        ensures
            r == val_equal(*self, *other),
        decreases *self,
    {
        match self {
            Val::Bool(x) => match other {
                Val::Bool(y) => *x == *y,
                _ => false,
            },
            Val::Int(x) => match other {
                Val::Int(y) => *x == *y,
                _ => false,
            },
            Val::String(x) => match other {
                Val::String(y) => x.same_text(y),
                _ => false,
            },
            Val::Symbol(x) => match other {
                Val::Symbol(y) => x.same_bytes(y),
                _ => false,
            },
            Val::NativeFunc(x) => match other {
                Val::NativeFunc(y) => same_native(x, y),
                _ => false,
            },
            Val::Func(f) => match other {
                Val::Func(g) => f.same_func(g),
                _ => false,
            },
        }
    }
}

impl Func {
    /// Whether two functions have the same argument count, code and constants.
    fn same_func(&self, other: &Func) -> (r: bool)
        ensures
            r == val_equal(Val::Func(*self), Val::Func(*other)),
        decreases *self,
    {
        let f = self;
        let g = other;
        if f.0.arg_count != g.0.arg_count {
            return false;
        }
        let fi = &f.0.instructions;
        let gi = &g.0.instructions;
        if fi.len() != gi.len() {
            return false;
        }
        let mut i: usize = 0;
        while i < fi.len()
            invariant
                fi@ == self.0.instructions@,
                gi@ == other.0.instructions@,
                self.0.arg_count == other.0.arg_count,
                fi@.len() == gi@.len(),
                i <= fi@.len(),
                forall|j: int| 0 <= j < i ==> fi@[j] == gi@[j],
            decreases fi@.len() - i,
        {
            if fi[i] != gi[i] {
                assert(fi@[i as int] != gi@[i as int]);
                return false;
            }
            i = i + 1;
        }
        assert(fi@ =~= gi@);
        let fc = &f.0.constants;
        let gc = &g.0.constants;
        if fc.len() != gc.len() {
            return false;
        }
        let mut k: usize = 0;
        while k < fc.len()
            invariant
                *fc == self.0.constants,
                *gc == other.0.constants,
                self.0.arg_count == other.0.arg_count,
                self.0.instructions@ == other.0.instructions@,
                fc@.len() == gc@.len(),
                k <= fc@.len(),
                forall|j: int| 0 <= j < k ==> #[trigger] val_equal(fc@[j], gc@[j]),
            decreases fc@.len() - k,
        {
            proof {
                let ghost cv: Vec<Val> = *fc;
                vstd::std_specs::vec::axiom_vec_index_decreases(cv, k as int);
                assert(decreases_to!(*self => cv[k as int]));
            }
            if !fc[k].equals(&gc[k]) {
                assert(!val_equal(self.0.constants@[k as int], other.0.constants@[k as int]));
                proof {
                    lemma_vals_equal(self.0.constants@, other.0.constants@);
                }
                return false;
            }
            k = k + 1;
        }
        proof {
            lemma_vals_equal(self.0.constants@, other.0.constants@);
        }
        true
    }
}

impl Clone for Val {
    fn clone(&self) -> (r: Self)
        ensures
            r == *self,
    {
        match self {
            Val::Bool(b) => Val::Bool(*b),
            Val::Int(i) => Val::Int(*i),
            Val::String(s) => Val::String(s.clone()),
            Val::Symbol(s) => Val::Symbol(*s),
            Val::Func(f) => Val::Func(f.clone()),
            Val::NativeFunc(n) => Val::NativeFunc(*n),
        }
    }
}

impl From<bool> for Val {
    fn from(v: bool) -> (r: Val) {
        Val::Bool(v)
    }
}

impl FromSpecImpl<bool> for Val {
    open spec fn obeys_from_spec() -> bool {
        true
    }

    open spec fn from_spec(v: bool) -> Val {
        Val::Bool(v)
    }
}

impl From<i64> for Val {
    fn from(v: i64) -> (r: Val) {
        Val::Int(v)
    }
}

impl FromSpecImpl<i64> for Val {
    open spec fn obeys_from_spec() -> bool {
        true
    }

    open spec fn from_spec(v: i64) -> Val {
        Val::Int(v)
    }
}

impl From<RcString> for Val {
    fn from(v: RcString) -> (r: Val) {
        Val::String(v)
    }
}

impl FromSpecImpl<RcString> for Val {
    open spec fn obeys_from_spec() -> bool {
        true
    }

    open spec fn from_spec(v: RcString) -> Val {
        Val::String(v)
    }
}

impl From<Symbol> for Val {
    fn from(v: Symbol) -> (r: Val) {
        Val::Symbol(v)
    }
}

impl FromSpecImpl<Symbol> for Val {
    open spec fn obeys_from_spec() -> bool {
        true
    }

    open spec fn from_spec(v: Symbol) -> Val {
        Val::Symbol(v)
    }
}

impl From<Func> for Val {
    fn from(v: Func) -> (r: Val) {
        Val::Func(v)
    }
}

impl FromSpecImpl<Func> for Val {
    open spec fn obeys_from_spec() -> bool {
        true
    }

    open spec fn from_spec(v: Func) -> Val {
        Val::Func(v)
    }
}

impl From<NativeFunc> for Val {
    fn from(v: NativeFunc) -> (r: Val) {
        Val::NativeFunc(v)
    }
}

impl FromSpecImpl<NativeFunc> for Val {
    open spec fn obeys_from_spec() -> bool {
        true
    }

    open spec fn from_spec(v: NativeFunc) -> Val {
        Val::NativeFunc(v)
    }
}

impl<'a> From<&'a str> for Val {
    fn from(v: &'a str) -> (r: Val)
        ensures
            r is String,
            r->String_0@ == v@,
    {
        Val::String(RcString::new(v))
    }
}

impl<'a> FromSpecImpl<&'a str> for Val {
    /// The string a `&str` becomes is described by `from` itself.
    open spec fn obeys_from_spec() -> bool {
        false
    }

    open spec fn from_spec(v: &'a str) -> Val {
        Val::Bool(false)
    }
}

impl From<String> for Val {
    fn from(v: String) -> (r: Val)
        ensures
            r is String,
            r->String_0@ == v@,
    {
        Val::String(RcString::new(v.as_str()))
    }
}

impl FromSpecImpl<String> for Val {
    /// The string a `String` becomes is described by `from` itself.
    open spec fn obeys_from_spec() -> bool {
        false
    }

    open spec fn from_spec(v: String) -> Val {
        Val::Bool(false)
    }
}

impl std::ops::Deref for RcString {
    type Target = str;

    fn deref(&self) -> (r: &str)
        ensures
            r@ == self@,
    {
        self.as_str()
    }
}

} // verus!
