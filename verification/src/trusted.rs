//! Calls into code that the library does not verify: `compact_str`, which
//! holds string values, and the few std functions that vstd gives no
//! specification.
use std::rc::Rc;
use std::str::Utf8Error;

use compact_str::CompactString;
use vstd::prelude::*;
use vstd::string::StringSliceAdditionalSpecFns;

use crate::val::{NativeFunc, Val};
use crate::Error;

verus! {

/// `compact_str::CompactString`, carried through the library as an opaque value.
#[verifier::external_type_specification]
#[verifier::external_body]
pub struct ExCompactString(CompactString);

/// The characters that a `CompactString` holds.
pub uninterp spec fn compact_text(s: CompactString) -> Seq<char>;

/// Calls `CompactString::new`, which copies the given text into a new
/// `CompactString`; the result holds exactly the characters of `s`.
#[verifier::external_body]
pub(crate) fn compact_new(s: &str) -> (r: CompactString)
    ensures
        compact_text(r) == s@,
{
    CompactString::new(s)
}

/// Calls `CompactString::as_str`, which returns the held text as a `&str`.
#[verifier::external_body]
pub(crate) fn compact_as_str(s: &CompactString) -> (r: &str)
    ensures
        r@ == compact_text(*s),
{
    s.as_str()
}

/// Calls `<CompactString as PartialEq>::eq`, which compares the held texts.
#[verifier::external_body]
pub(crate) fn compact_eq(a: &CompactString, b: &CompactString) -> (r: bool)
    ensures
        r == (compact_text(*a) == compact_text(*b)),
{
    a == b
}

/// `std::str::Utf8Error`, the error of `std::str::from_utf8`.
#[verifier::external_type_specification]
#[verifier::external_body]
pub struct ExUtf8Error(Utf8Error);

/// Calls `std::str::from_utf8`, which succeeds exactly when the bytes are
/// valid UTF-8 and then returns the string slice made of those bytes.
#[verifier::external_body]
pub(crate) fn str_from_utf8(v: &[u8]) -> (r: Result<&str, Utf8Error>)
    ensures
        r.is_ok() == vstd::utf8::valid_utf8(v@),
        r matches Ok(s) ==> s.spec_bytes() == v@,
{
    std::str::from_utf8(v)
}

/// `r` is a result that the native function `f` may return when called with
/// `args`. Native functions are written by the library's users, so this is a
/// relation, not a function: one may give different results on equal arguments.
pub uninterp spec fn native_returns(f: NativeFunc, args: Seq<Val>, r: Result<Val, Error>) -> bool;

/// Calls the native function that `f` holds with `args` and returns what it
/// returns. The function is supplied by the library's user, so the contract
/// says only that the result is one that `f` returns on `args`; nothing is
/// stated of which results those are.
#[verifier::external_body]
pub(crate) fn call_native(f: &NativeFunc, args: &[Val]) -> (r: Result<Val, Error>)
    ensures
        native_returns(*f, args@, r),
{
    (f.0)(args)
}

/// How std's `Debug` shows a string: quoted, with escapes.
pub uninterp spec fn str_debug(text: Seq<char>) -> Seq<char>;

/// Formats `s` with std's `Debug` for `str` (`format!("{:?}", s)`), which
/// depends on the text alone.
#[verifier::external_body]
pub(crate) fn debug_quote(s: &str) -> (r: String)
    ensures
        r@ == str_debug(s@),
{
    format!("{:?}", s)
}

/// Calls `Rc::clone`, which makes another pointer to the same allocation; the
/// pointed-to value is therefore the same.
#[verifier::external_body]
pub(crate) fn rc_clone<T>(r: &Rc<T>) -> (c: Rc<T>)
    ensures
        c == *r,
{
    Rc::clone(r)
}

/// Compares the two function pointers with std's `==` on `fn` types: `true`
/// exactly when they are the same pointer, which is what a `NativeFunc` value is.
#[verifier::external_body]
pub(crate) fn same_native(a: &NativeFunc, b: &NativeFunc) -> (r: bool)
    ensures
        r == (*a == *b),
{
    a.0 == b.0
}

} // verus!
