//! Character classes shared by the scanners, and conversions between the
//! character sequences the parsers work on and `String`/`&str`.

use vstd::prelude::*;

verus! {

/// A space or a tab: the blanks that separate tokens on one line.
pub open spec fn is_blank(c: char) -> bool {
    c == ' ' || c == '\t'
}

pub open spec fn is_ascii_alpha(c: char) -> bool {
    ('a' <= c && c <= 'z') || ('A' <= c && c <= 'Z')
}

pub open spec fn is_ascii_digit(c: char) -> bool {
    '0' <= c && c <= '9'
}

pub open spec fn is_ascii_alnum(c: char) -> bool {
    is_ascii_alpha(c) || is_ascii_digit(c)
}

/// First character of a variable name.
pub open spec fn is_name_start(c: char) -> bool {
    is_ascii_alpha(c) || c == '_'
}

/// Later characters of a variable name.
pub open spec fn is_name_char(c: char) -> bool {
    is_ascii_alnum(c) || c == '_'
}

/// Characters that may stand in a bare (unquoted, unexpanded) word: everything but
/// whitespace, the shell operators and the characters that start quotes or expansions.
pub open spec fn is_word_char(c: char) -> bool {
    !(c == ' ' || c == '\t' || c == '\n' || c == '\r' || c == '|' || c == '&' || c == ';'
        || c == '<' || c == '>' || c == '(' || c == ')' || c == '$' || c == '`' || c == '\''
        || c == '"' || c == '\\')
}

/// The Unicode `White_Space` property, which `char::is_whitespace` tests.
pub open spec fn is_unicode_whitespace(c: char) -> bool {
    ('\u{9}' <= c && c <= '\u{d}') || c == ' ' || c == '\u{85}' || c == '\u{a0}'
        || c == '\u{1680}' || ('\u{2000}' <= c && c <= '\u{200a}') || c == '\u{2028}'
        || c == '\u{2029}' || c == '\u{202f}' || c == '\u{205f}' || c == '\u{3000}'
}

/// What `char::is_alphanumeric` answers (Unicode `Alphabetic` or `Numeric`).
pub uninterp spec fn unicode_alphanumeric(c: char) -> bool;

pub fn blank(c: char) -> (b: bool)
    ensures
        b == is_blank(c),
{
    c == ' ' || c == '\t'
}

pub fn ascii_alpha(c: char) -> (b: bool)
    ensures
        b == is_ascii_alpha(c),
{
    ('a' <= c && c <= 'z') || ('A' <= c && c <= 'Z')
}

pub fn ascii_digit(c: char) -> (b: bool)
    ensures
        b == is_ascii_digit(c),
{
    '0' <= c && c <= '9'
}

pub fn name_start(c: char) -> (b: bool)
    ensures
        b == is_name_start(c),
{
    ascii_alpha(c) || c == '_'
}

pub fn name_char(c: char) -> (b: bool)
    ensures
        b == is_name_char(c),
{
    ascii_alpha(c) || ascii_digit(c) || c == '_'
}

pub fn word_char(c: char) -> (b: bool)
    ensures
        b == is_word_char(c),
{
    !(c == ' ' || c == '\t' || c == '\n' || c == '\r' || c == '|' || c == '&' || c == ';'
        || c == '<' || c == '>' || c == '(' || c == ')' || c == '$' || c == '`' || c == '\''
        || c == '"' || c == '\\')
}

/// Whether `c` has the Unicode `White_Space` property (as `char::is_whitespace` does).
pub fn is_whitespace(c: char) -> (b: bool)
    ensures
        b == is_unicode_whitespace(c),
{
    ('\u{9}' <= c && c <= '\u{d}') || c == ' ' || c == '\u{85}' || c == '\u{a0}'
        || c == '\u{1680}' || ('\u{2000}' <= c && c <= '\u{200a}') || c == '\u{2028}'
        || c == '\u{2029}' || c == '\u{202f}' || c == '\u{205f}' || c == '\u{3000}'
}

/// Calls std's `char::is_alphanumeric` (Unicode `Alphabetic` or numeric). The
/// contract claims that the answer is `unicode_alphanumeric(c)`, a function of `c`
/// alone, and that ASCII letters and digits are alphanumeric, as std documents; the
/// rest of the Unicode tables is not stated.
#[verifier::external_body]
pub(crate) fn is_alphanumeric(c: char) -> (b: bool)
    ensures
        b == unicode_alphanumeric(c),
        is_ascii_alpha(c) || is_ascii_digit(c) ==> b,
{
    c.is_alphanumeric()
}

/// Calls std's `String::push`. The contract claims what its documentation says:
/// the string afterwards is the old one with `c` appended.
#[verifier::external_body]
pub(crate) fn push_char(s: &mut String, c: char)
    ensures
        final(s)@ == old(s)@.push(c),
{
    s.push(c);
}

/// The characters of `s[start..end]` as a `String`.
pub fn string_from_chars(s: &[char], start: usize, end: usize) -> (r: String)
    requires
        start <= end <= s@.len(),
    ensures
        r@ == s@.subrange(start as int, end as int),
{
    let mut r = String::new();
    let mut i = start;
    while i < end
        invariant
            start <= i <= end <= s@.len(),
            r@ == s@.subrange(start as int, i as int),
        decreases end - i,
    {
        push_char(&mut r, s[i]);
        assert(s@.subrange(start as int, i + 1) =~= s@.subrange(start as int, i as int).push(s@[i as int]));
        i = i + 1;
    }
    r
}

/// The characters of `s`, in order.
pub fn chars_of(s: &str) -> (r: Vec<char>)
    ensures
        r@ == s@,
{
    let mut r: Vec<char> = Vec::new();
    for c in it: s.chars()
        invariant
            r@ == it.seq().take(it.index() as int),
    {
        r.push(c);
    }
    r
}

} // verus!
