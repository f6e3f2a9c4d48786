//! Characters: ASCII classes and upper-casing.

use vstd::prelude::*;

verus! {

/// `String::push` appends the character to the end of the string. As for
/// `Vec::push` in vstd, the limit that memory sets to the size of a string
/// is not modelled.
pub assume_specification[ String::push ](s: &mut String, ch: char)
    ensures
        final(s)@ == old(s)@.push(ch),
;

/// Whether `c` is one of the 128 ASCII characters.
pub open spec fn is_ascii_char(c: char) -> bool {
    (c as u32) < 128
}

/// Whether `c` is one of the letters `a` to `z`.
pub open spec fn is_ascii_lowercase(c: char) -> bool {
    'a' <= c && c <= 'z'
}

/// Whether `c` is one of the letters `A` to `Z`.
pub open spec fn is_ascii_uppercase(c: char) -> bool {
    'A' <= c && c <= 'Z'
}

/// Whether `c` is one of the digits `0` to `9`.
pub open spec fn is_ascii_digit(c: char) -> bool {
    '0' <= c && c <= '9'
}

/// Whether `c` is an ASCII letter or digit.
pub open spec fn is_ascii_alphanumeric(c: char) -> bool {
    is_ascii_lowercase(c) || is_ascii_uppercase(c) || is_ascii_digit(c)
}

/// `c` with the ASCII letters `a` to `z` moved to `A` to `Z`.
pub open spec fn ascii_uppercase(c: char) -> char {
    if is_ascii_lowercase(c) {
        ((c as u32) - 32) as char
    } else {
        c
    }
}

/// The characters that `char::to_uppercase` yields for `c`, in order: its
/// uppercase mapping in Unicode, which depends on neither language nor
/// context.
pub uninterp spec fn uppercase_mapping(c: char) -> Seq<char>;

/// The character that upper-casing puts in the place of `c`: the first one of
/// its uppercase mapping. For an ASCII character that is its ASCII uppercase.
pub open spec fn upper_initial_of(c: char) -> char {
    if is_ascii_char(c) {
        ascii_uppercase(c)
    } else {
        uppercase_mapping(c)[0]
    }
}

/// Calls `char::to_uppercase` and collects what it yields.
///
/// Not proved: that the mapping is the one named by [`uppercase_mapping`],
/// that it holds at least one character, and that for an ASCII character it
/// is the single character [`ascii_uppercase`] gives (the letters `a` to `z`
/// map to `A` to `Z`; no other ASCII character has an uppercase mapping, so
/// it is yielded unchanged).
#[verifier::external_body]
fn to_uppercase(c: char) -> (mapping: Vec<char>)
    ensures
        mapping@ == uppercase_mapping(c),
        mapping@.len() >= 1,
        is_ascii_char(c) ==> mapping@ == seq![ascii_uppercase(c)],
{
    c.to_uppercase().collect()
}

/// Upper-cases one character, keeping the first character where the
/// uppercase mapping has several.
pub fn upper_initial(c: char) -> (upper: char)
    ensures
        upper == upper_initial_of(c),
{
    let mapping = to_uppercase(c);
    mapping[0]
}

} // verus!
