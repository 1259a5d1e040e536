//! Small string operations of std that vstd leaves unspecified.

use vstd::prelude::*;

verus! {

/// ASCII upper-casing of one character: `a`..`z` become `A`..`Z`, all else is kept.
pub open spec fn ascii_upper(c: char) -> char {
    if 'a' <= c && c <= 'z' {
        ((c as u32) - 32) as char
    } else {
        c
    }
}

/// ASCII lower-casing of one character: `A`..`Z` become `a`..`z`, all else is kept.
pub open spec fn ascii_lower(c: char) -> char {
    if 'A' <= c && c <= 'Z' {
        ((c as u32) + 32) as char
    } else {
        c
    }
}

/// What `str::to_uppercase` returns for the one-character string `c`: the
/// Unicode uppercase mapping of `c`, which may be several characters.
pub uninterp spec fn char_uppercase(c: char) -> Seq<char>;

/// The uppercase of one character: on ASCII the ASCII mapping, beyond ASCII
/// the Unicode one.
pub open spec fn upper_of(c: char) -> Seq<char> {
    if c <= '\u{7f}' {
        seq![ascii_upper(c)]
    } else {
        char_uppercase(c)
    }
}

/// Upper-casing a string: each character mapped, the results concatenated.
pub open spec fn uppercase_spec(s: Seq<char>) -> Seq<char>
    decreases s.len(),
{
    if s.len() == 0 {
        seq![]
    } else {
        uppercase_spec(s.drop_last()) + upper_of(s.last())
    }
}

/// Calls `str::to_uppercase`, which maps the string character by character
/// by the Unicode uppercase mapping and concatenates the results; on an ASCII
/// character that mapping is the ASCII one (`a`..`z` to `A`..`Z`, the rest
/// unchanged). The mapping of a non-ASCII character is named by
/// `char_uppercase`.
#[verifier::external_body]
pub(crate) fn to_uppercase(s: &str) -> (res: String)
    ensures
        res@ == uppercase_spec(s@),
        s@.len() == 1 && s@[0] > '\u{7f}' ==> res@ == char_uppercase(s@[0]),
{
    s.to_uppercase()
}

/// Calls `String::push`, which appends one character.
#[verifier::external_body]
pub(crate) fn push_char(s: &mut String, c: char)
    ensures
        final(s)@ == old(s)@.push(c),
{
    s.push(c)
}

/// Appends `t` to `s`.
pub fn push_str(s: &mut String, t: &str)
    ensures
        final(s)@ == old(s)@ + t@,
{
    s.append(t);
}

} // verus!
