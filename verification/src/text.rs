//! Bridges between `&str`/`String` and `Vec<char>`.
//!
//! The parser and renderer work on vectors of characters; these are the only
//! places where the library leans on the standard library's string iteration.

use vstd::prelude::*;

verus! {

/// Relies on `str::chars` and `Iterator::collect`: the characters of a string
/// slice, in order. A string slice holds at most `isize::MAX` bytes and every
/// character occupies at least one byte, so the count stays below
/// `usize::MAX`.
#[verifier::external_body]
pub fn chars_of_str(s: &str) -> (r: Vec<char>)
    ensures
        r@ == s@,
        r@.len() < usize::MAX,
{
    s.chars().collect()
}

/// Relies on `Iterator::collect` for `String`: the string made of exactly the
/// given characters, in order.
#[verifier::external_body]
pub fn string_of_chars(v: &Vec<char>) -> (r: String)
    ensures
        r@ == v@,
{
    v.iter().collect()
}

/// Relies on `char::from_u32`: `Some` exactly when the value is a Unicode
/// scalar (not a surrogate, at most `0x10FFFF`), and the returned character
/// casts back to the value.
#[verifier::external_body]
pub fn char_of_scalar(u: u32) -> (r: Option<char>)
    ensures
        r is Some <==> (u < 0xD800 || (0xE000 <= u && u <= 0x10FFFF)),
        r matches Some(c) ==> c as u32 == u,
{
    char::from_u32(u)
}

} // verus!
