//! Small verified building blocks for working with strings character by
//! character: character classes, string equality, and appending a character
//! to a `String`.

use vstd::prelude::*;

verus! {

/// The whitespace characters the shell splits words on: the Unicode
/// White_Space set, written out.
pub open spec fn is_space_char(c: char) -> bool {
    c == '\u{0009}' || c == '\u{000A}' || c == '\u{000B}' || c == '\u{000C}' || c == '\u{000D}'
        || c == '\u{0020}' || c == '\u{0085}' || c == '\u{00A0}' || c == '\u{1680}' || (
    '\u{2000}' as u32 <= c as u32 && c as u32 <= '\u{200A}' as u32) || c == '\u{2028}' || c
        == '\u{2029}' || c == '\u{202F}' || c == '\u{205F}' || c == '\u{3000}'
}

/// Whether the character is a Unicode letter or digit, as
/// `char::is_alphanumeric` decides it; the result depends on the character
/// alone.
pub uninterp spec fn is_alnum_char(c: char) -> bool;

/// Relies on char::is_alphanumeric: whether the character is a Unicode
/// letter or digit.
#[verifier::external_body]
pub fn is_alnum(c: char) -> (r: bool)
    ensures
        r == is_alnum_char(c),
{
    c.is_alphanumeric()
}

/// The characters that may make up a variable name after `$`: letters,
/// digits and the underscore.
pub open spec fn is_var_char(c: char) -> bool {
    is_alnum_char(c) || c == '_'
}

/// The two quote characters the tokenizer treats as grouping.
pub open spec fn is_quote_char(c: char) -> bool {
    c == '\'' || c == '"'
}

pub fn is_space(c: char) -> (r: bool)
    ensures
        r == is_space_char(c),
{
    c == '\u{0009}' || c == '\u{000A}' || c == '\u{000B}' || c == '\u{000C}' || c == '\u{000D}'
        || c == '\u{0020}' || c == '\u{0085}' || c == '\u{00A0}' || c == '\u{1680}' || (
    '\u{2000}' as u32 <= c as u32 && c as u32 <= '\u{200A}' as u32) || c == '\u{2028}' || c
        == '\u{2029}' || c == '\u{202F}' || c == '\u{205F}' || c == '\u{3000}'
}

pub fn is_var(c: char) -> (r: bool)
    ensures
        r == is_var_char(c),
{
    is_alnum(c) || c == '_'
}

pub fn is_quote(c: char) -> (r: bool)
    ensures
        r == is_quote_char(c),
{
    c == '\'' || c == '"'
}

/// Relies on String::push: appends exactly the given character to the end of
/// the string.
#[verifier::external_body]
pub fn push_char(s: &mut String, c: char)
    ensures
        final(s)@ == old(s)@.push(c),
{
    s.push(c)
}

/// Character-by-character string comparison.
pub fn str_eq(a: &str, b: &str) -> (r: bool)
    ensures
        r == (a@ == b@),
{
    let a_len = a.unicode_len();
    let b_len = b.unicode_len();
    if a_len != b_len {
        return false;
    }
    let mut i: usize = 0;
    while i < a_len
        invariant
            a_len == a@.len(),
            b_len == b@.len(),
            a_len == b_len,
            i <= a_len,
            forall|j: int| 0 <= j < i ==> a@[j] == b@[j],
        decreases a_len - i,
    {
        if a.get_char(i) != b.get_char(i) {
            return false;
        }
        i = i + 1;
    }
    proof {
        assert(a@ =~= b@);
    }
    true
}

} // verus!
