//! Text helpers: conversion between strings and character vectors, the
//! Unicode alphabetic test, and backslash-escape rewriting.

use unescape::unescape;
use vstd::prelude::*;
use vstd::string::StrSliceExecFns;

verus! {

/// What `unescape` rewrites a string to: backslash escape sequences such as
/// `\n`, `\t` and `\\` become the characters they denote; `None` on a
/// malformed escape.
pub uninterp spec fn unescaped_text(s: Seq<char>) -> Option<Seq<char>>;

/// Relies on `unescape::unescape`: rewrites backslash escape sequences to
/// the characters they denote, `None` on a malformed escape; the result
/// depends on the text alone.
#[verifier::external_body]
pub(crate) fn unescape_text(s: &str) -> (r: Option<String>)
    ensures
        (r is Some) == (unescaped_text(s@) is Some),
        r matches Some(t) ==> unescaped_text(s@) matches Some(u) && t@ == u,
{
    unescape(s)
}

/// Whether a character counts as alphabetic (the Unicode property).
pub uninterp spec fn spec_alphabetic(c: char) -> bool;

/// Relies on `char::is_alphabetic`: the Unicode Alphabetic property, a
/// function of the character alone.
#[verifier::external_body]
pub(crate) fn char_alphabetic(c: char) -> (r: bool)
    ensures
        r == spec_alphabetic(c),
{
    c.is_alphabetic()
}

/// Relies on `Iterator::collect` for `String`: builds the string holding
/// exactly the given characters in order.
#[verifier::external_body]
pub(crate) fn chars_to_string(v: &Vec<char>) -> (r: String)
    ensures
        r@ == v@,
{
    v.iter().collect()
}

/// The characters of a range of a character vector, as a string.
pub(crate) fn chars_range_to_string(v: &Vec<char>, a: usize, b: usize) -> (r: String)
    requires
        a <= b <= v@.len(),
    ensures
        r@ == v@.subrange(a as int, b as int),
{
    let mut part: Vec<char> = Vec::new();
    let mut i: usize = a;
    while i < b
        invariant
            a <= i <= b <= v@.len(),
            part@ == v@.subrange(a as int, i as int),
        decreases b - i,
    {
        part.push(v[i]);
        i += 1;
        proof {
            assert(part@ =~= v@.subrange(a as int, i as int));
        }
    }
    chars_to_string(&part)
}

/// The characters of a string, in order, as a vector.
pub(crate) fn string_to_chars(s: &str) -> (r: Vec<char>)
    ensures
        r@ == s@,
{
    let n = s.unicode_len();
    let mut r: Vec<char> = Vec::new();
    let mut i: usize = 0;
    while i < n
        invariant
            i <= n,
            n == s@.len(),
            r@ == s@.subrange(0, i as int),
        decreases n - i,
    {
        r.push(s.get_char(i));
        i += 1;
        proof {
            assert(r@ =~= s@.subrange(0, i as int));
        }
    }
    proof {
        assert(r@ =~= s@);
    }
    r
}

} // verus!
