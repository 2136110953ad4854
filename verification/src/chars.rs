//! Trusted character and string primitives.
//!
//! Everything here either wraps a `std` function that `vstd` gives no
//! specification, or names the result of a Unicode classification table.
use vstd::prelude::*;
use vstd::string::StrSliceExecFns;

verus! {

/// Whether `char::is_alphabetic` holds of `c`; the Unicode tables decide,
/// and the result depends on the character alone.
pub uninterp spec fn spec_is_alphabetic(c: char) -> bool;

/// Whether `char::is_alphanumeric` holds of `c`; the Unicode tables decide,
/// and the result depends on the character alone.
pub uninterp spec fn spec_is_alphanumeric(c: char) -> bool;

/// Whether `char::is_whitespace` holds of `c`; the Unicode tables decide,
/// and the result depends on the character alone.
pub uninterp spec fn spec_is_whitespace(c: char) -> bool;

/// Relies on char::is_alphabetic: the result is a function of the character.
pub assume_specification[ char::is_alphabetic ](c: char) -> (r: bool)
    ensures
        r == spec_is_alphabetic(c),
;

/// Relies on char::is_alphanumeric: the result is a function of the character.
pub assume_specification[ char::is_alphanumeric ](c: char) -> (r: bool)
    ensures
        r == spec_is_alphanumeric(c),
;

/// Relies on char::is_whitespace: the result is a function of the character.
pub assume_specification[ char::is_whitespace ](c: char) -> (r: bool)
    ensures
        r == spec_is_whitespace(c),
;

/// Relies on `<str as PartialEq>::eq`: two string slices are equal exactly
/// when their character sequences are equal (UTF-8 encoding is injective).
#[verifier::external_body]
pub fn str_eq(a: &str, b: &str) -> (r: bool)
    ensures
        r == (a@ == b@),
{
    a == b
}

/// Relies on String::push: appends exactly one character at the end.
#[verifier::external_body]
pub fn push_char(s: &mut String, c: char)
    ensures
        final(s)@ == old(s)@.push(c),
{
    s.push(c);
}

/// Copies the characters of a string slice into a vector, one by one.
pub fn str_to_chars(s: &str) -> (r: Vec<char>)
    ensures
        r@ == s@,
{
    let n = s.unicode_len();
    let mut r: Vec<char> = Vec::new();
    let mut i: usize = 0;
    while i < n
        invariant
            i <= n,
            r@ == s@.subrange(0, i as int),
        decreases n - i,
    {
        r.push(s.get_char(i));
        i = i + 1;
        assert(r@ =~= s@.subrange(0, i as int));
    }
    assert(s@.subrange(0, n as int) =~= s@);
    r
}

} // verus!
