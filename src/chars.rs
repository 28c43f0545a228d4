//! Character classes and string building blocks shared by the lexer and the
//! diagnostics.
use vstd::prelude::*;

verus! {

/// Whether `c` has the Unicode `White_Space` property.
pub open spec fn is_white_space(c: char) -> bool {
    let u = c as u32;
    ||| 0x09 <= u <= 0x0D
    ||| u == 0x20
    ||| u == 0x85
    ||| u == 0xA0
    ||| u == 0x1680
    ||| 0x2000 <= u <= 0x200A
    ||| u == 0x2028
    ||| u == 0x2029
    ||| u == 0x202F
    ||| u == 0x205F
    ||| u == 0x3000
}

/// Whether `c` is one of the ASCII letters `A-Z` and `a-z`.
pub open spec fn is_ascii_letter(c: char) -> bool {
    ('A' <= c && c <= 'Z') || ('a' <= c && c <= 'z')
}

/// Whether `c` is one of the ASCII decimal digits `0-9`.
pub open spec fn is_decimal_digit(c: char) -> bool {
    '0' <= c && c <= '9'
}

/// Whether `c` has the Unicode `ID_Start` property.
pub uninterp spec fn id_start(c: char) -> bool;

/// Whether `c` has the Unicode `ID_Continue` property.
pub uninterp spec fn id_continue(c: char) -> bool;

/// Whether `c` can start an identifier: an ASCII letter, or a non-ASCII
/// character with the `ID_Start` property.
pub open spec fn ident_start(c: char) -> bool {
    if (c as u32) < 128 {
        is_ascii_letter(c)
    } else {
        id_start(c)
    }
}

/// Whether `c` can continue an identifier: an ASCII letter, digit or `_`, or
/// a non-ASCII character with the `ID_Continue` property.
pub open spec fn ident_continue(c: char) -> bool {
    if (c as u32) < 128 {
        is_ascii_letter(c) || is_decimal_digit(c) || c == '_'
    } else {
        id_continue(c)
    }
}

/// Whether `c` has the Unicode `White_Space` property.
pub(crate) fn is_whitespace(c: char) -> (r: bool)
    ensures
        r == is_white_space(c),
{
    let u = c as u32;
    (0x09 <= u && u <= 0x0D) || u == 0x20 || u == 0x85 || u == 0xA0 || u == 0x1680 || (0x2000 <= u && u <= 0x200A)
        || u == 0x2028 || u == 0x2029 || u == 0x202F || u == 0x205F || u == 0x3000
}

/// Relies on `unicode_id_start::is_id_start`; on ASCII it answers from a table
/// that holds exactly the letters.
#[verifier::external_body]
pub(crate) fn is_id_start(c: char) -> (r: bool)
    ensures
        r == id_start(c),
        (c as u32) < 128 ==> (r <==> is_ascii_letter(c)),
{
    unicode_id_start::is_id_start(c)
}

/// Relies on `unicode_id_start::is_id_continue`; on ASCII it answers from a
/// table that holds exactly the letters, the digits and `_`.
#[verifier::external_body]
pub(crate) fn is_id_continue(c: char) -> (r: bool)
    ensures
        r == id_continue(c),
        (c as u32) < 128 ==> (r <==> (is_ascii_letter(c) || is_decimal_digit(c) || c == '_')),
{
    unicode_id_start::is_id_continue(c)
}

/// Relies on `String::push`: appends one character.
#[verifier::external_body]
pub(crate) fn push_char(s: &mut String, c: char)
    ensures
        final(s)@ == old(s)@.push(c),
{
    s.push(c)
}

/// The characters of `s`, one per element.
pub fn chars_of(s: &str) -> (r: Vec<char>)
    ensures
        r@ == s@,
{
    let mut r: Vec<char> = Vec::new();
    for c in it: s.chars()
        invariant
            r@ == it.seq().subrange(0, it.index() as int),
    {
        r.push(c);
    }
    r
}

} // verus!
