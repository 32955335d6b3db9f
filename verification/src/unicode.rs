use vstd::prelude::*;

verus! {

/// What `char::to_uppercase` yields for a character beyond ASCII: its Unicode
/// uppercase mapping, one or more characters (the character itself when it
/// has no mapping).
pub uninterp spec fn unicode_upper(c: char) -> Seq<char>;

/// The characters with the Unicode `White_Space` property (PropList.txt),
/// which `char::is_whitespace` tests for: the controls U+0009 to U+000D, the
/// space, U+0085, U+00A0, U+1680, U+2000 to U+200A, U+2028, U+2029, U+202F,
/// U+205F and U+3000.
pub open spec fn white_space(c: char) -> bool {
    ('\u{9}' <= c && c <= '\u{d}') || c == ' ' || c == '\u{85}' || c == '\u{a0}' || c == '\u{1680}'
        || ('\u{2000}' <= c && c <= '\u{200a}') || c == '\u{2028}' || c == '\u{2029}'
        || c == '\u{202f}' || c == '\u{205f}' || c == '\u{3000}'
}

/// The uppercase of an ASCII character: `a`..`z` become `A`..`Z`, every other
/// ASCII character stays as it is.
pub open spec fn ascii_upper_char(c: char) -> char {
    if 'a' <= c && c <= 'z' {
        ((c as u32) - 32) as char
    } else {
        c
    }
}

/// Whether `c` is an ASCII character.
pub open spec fn is_ascii_char(c: char) -> bool {
    (c as u32) < 128
}

/// What `char::to_uppercase` yields for `c`: for an ASCII character the one
/// character of its ASCII uppercase (the Unicode data maps `a`..`z` to
/// `A`..`Z` and gives no other ASCII character an uppercase mapping, and a
/// character without one yields itself); beyond ASCII, `unicode_upper(c)`.
pub open spec fn uppercase(c: char) -> Seq<char> {
    if is_ascii_char(c) {
        seq![ascii_upper_char(c)]
    } else {
        unicode_upper(c)
    }
}

/// Calls `char::to_uppercase` and collects what it yields.
/// Trusted: the result is `uppercase(c)`, one or more characters as the
/// documentation promises. Which characters the Unicode tables give beyond
/// ASCII is not stated here.
#[verifier::external_body]
pub(crate) fn upper_mapping(c: char) -> (out: Vec<char>)
    ensures
        out@ == uppercase(c),
        !is_ascii_char(c) ==> out@ == unicode_upper(c),
        out@.len() >= 1,
{
    c.to_uppercase().collect()
}

/// Whether `c` is whitespace, as `char::is_whitespace` decides.
pub fn is_whitespace(c: char) -> (b: bool)
    ensures
        b == white_space(c),
{
    ('\u{9}' <= c && c <= '\u{d}') || c == ' ' || c == '\u{85}' || c == '\u{a0}' || c == '\u{1680}'
        || ('\u{2000}' <= c && c <= '\u{200a}') || c == '\u{2028}' || c == '\u{2029}'
        || c == '\u{202f}' || c == '\u{205f}' || c == '\u{3000}'
}

/// Calls `String::push`.
/// Trusted: the string afterwards is the old one with `c` appended, as its
/// documentation says.
#[verifier::external_body]
pub(crate) fn push_char(s: &mut String, c: char)
    ensures
        final(s)@ == old(s)@.push(c),
{
    s.push(c);
}

} // verus!
