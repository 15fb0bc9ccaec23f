//! Words: bare words, quoted strings, escapes and the expansions that may stand in a
//! word, then words as a whole, reserved words and keywords.

use vstd::prelude::*;
use crate::ast::{span, SWord, SourceSpan, Word};
use crate::char_parsers::{
    at, balanced_scan, lemma_balanced_scan, lemma_gap_end, lemma_run_end, lemma_spaces, lit_at, literal_at,
    opt_pos, parse_balanced_delimiters, run_end, spaces, spaces_end, spec_balanced,
};
use crate::chars::{
    ascii_digit, is_ascii_digit, is_alphanumeric, is_word_char, string_from_chars,
    unicode_alphanumeric, word_char,
};

verus! {

pub open spec fn spec_bare_word(s: Seq<char>, p: int) -> Option<int> {
    let e = run_end(s, p, |c: char| is_word_char(c));
    if 0 <= p && e > p {
        Some(e)
    } else {
        None
    }
}

pub open spec fn is_var_char(c: char) -> bool {
    unicode_alphanumeric(c) || c == '_'
}

pub open spec fn spec_simple_variable(s: Seq<char>, p: int) -> Option<int> {
    if at(s, p, '$') {
        let e = run_end(s, p + 1, |c: char| is_var_char(c));
        if e > p + 1 {
            Some(e)
        } else {
            None
        }
    } else {
        None
    }
}

pub open spec fn spec_braced_variable(s: Seq<char>, p: int) -> Option<int> {
    spec_balanced(s, p, seq!['$', '{'], Some('{'), '}', 1)
}

pub open spec fn spec_arithmetic_expansion(s: Seq<char>, p: int) -> Option<int> {
    spec_balanced(s, p, seq!['$', '(', '('], Some('('), ')', 2)
}

pub open spec fn spec_command_substitution(s: Seq<char>, p: int) -> Option<int> {
    if lit_at(s, p, seq!['$', '(', '(']) {
        None
    } else {
        spec_balanced(s, p, seq!['$', '('], Some('('), ')', 1)
    }
}

pub open spec fn spec_backtick_substitution(s: Seq<char>, p: int) -> Option<int> {
    spec_balanced(s, p, seq!['`'], None, '`', 1)
}

pub open spec fn is_special_param_char(c: char) -> bool {
    is_ascii_digit(c) || c == '?' || c == '@' || c == '*' || c == '#' || c == '$' || c == '!'
        || c == '-' || c == '_'
}

pub open spec fn spec_special_parameter(s: Seq<char>, p: int) -> Option<int> {
    if at(s, p, '$') && p + 1 < s.len() && is_special_param_char(s[p + 1]) {
        Some(p + 2)
    } else {
        None
    }
}

pub open spec fn spec_single_quoted(s: Seq<char>, p: int) -> Option<int> {
    if at(s, p, '\'') {
        let e = run_end(s, p + 1, |c: char| c != '\'');
        if at(s, e, '\'') {
            Some(e + 1)
        } else {
            None
        }
    } else {
        None
    }
}

/// The rest of a double-quoted string from `p`: up to and including the closing `"`,
/// a backslash escaping the character after it.
pub open spec fn dq_scan(s: Seq<char>, p: int) -> Option<int>
    decreases s.len() - p,
{
    if p < 0 || p >= s.len() {
        None
    } else if s[p] == '"' {
        Some(p + 1)
    } else if s[p] == '\\' {
        if p + 1 < s.len() {
            dq_scan(s, p + 2)
        } else {
            None
        }
    } else {
        dq_scan(s, p + 1)
    }
}

pub open spec fn spec_double_quoted(s: Seq<char>, p: int) -> Option<int> {
    if at(s, p, '"') {
        dq_scan(s, p + 1)
    } else {
        None
    }
}

pub open spec fn spec_escape(s: Seq<char>, p: int) -> Option<int> {
    if at(s, p, '\\') && p + 1 < s.len() {
        Some(p + 2)
    } else {
        None
    }
}

/// One part of a word, the first of these that applies: a single-quoted string, a
/// double-quoted string, an escaped character, an arithmetic expansion, a command
/// substitution, a braced variable, a special parameter, a simple variable, a
/// backtick substitution, a lone `$`, or a bare word.
pub open spec fn spec_word_part(s: Seq<char>, p: int) -> Option<int> {
    if spec_single_quoted(s, p) is Some {
        spec_single_quoted(s, p)
    } else if spec_double_quoted(s, p) is Some {
        spec_double_quoted(s, p)
    } else if spec_escape(s, p) is Some {
        spec_escape(s, p)
    } else if spec_arithmetic_expansion(s, p) is Some {
        spec_arithmetic_expansion(s, p)
    } else if spec_command_substitution(s, p) is Some {
        spec_command_substitution(s, p)
    } else if spec_braced_variable(s, p) is Some {
        spec_braced_variable(s, p)
    } else if spec_special_parameter(s, p) is Some {
        spec_special_parameter(s, p)
    } else if spec_simple_variable(s, p) is Some {
        spec_simple_variable(s, p)
    } else if spec_backtick_substitution(s, p) is Some {
        spec_backtick_substitution(s, p)
    } else if at(s, p, '$') {
        Some(p + 1)
    } else {
        spec_bare_word(s, p)
    }
}

pub proof fn lemma_dq_scan(s: Seq<char>, p: int)
    requires
        0 <= p <= s.len(),
    ensures
        dq_scan(s, p) matches Some(e) ==> p < e <= s.len(),
    decreases s.len() - p,
{
    if p < s.len() && s[p] != '"' {
        if s[p] == '\\' {
            if p + 1 < s.len() {
                lemma_dq_scan(s, p + 2);
            }
        } else {
            lemma_dq_scan(s, p + 1);
        }
    }
}

pub proof fn lemma_balanced_progress(
    s: Seq<char>,
    p: int,
    prefix: Seq<char>,
    open: Option<char>,
    close: char,
    depth: nat,
)
    requires
        0 <= p <= s.len(),
        prefix.len() > 0,
    ensures
        spec_balanced(s, p, prefix, open, close, depth) matches Some(e) ==> p < e <= s.len(),
{
    if lit_at(s, p, prefix) {
        lemma_balanced_scan(s, p + prefix.len(), open, close, depth);
    }
}

/// Each word part that is found consumes at least one character.
pub proof fn lemma_word_part(s: Seq<char>, p: int)
    requires
        0 <= p <= s.len(),
    ensures
        spec_word_part(s, p) matches Some(e) ==> p < e <= s.len(),
{
    lemma_run_end(s, p, |c: char| is_word_char(c));
    if p < s.len() {
        lemma_run_end(s, p + 1, |c: char| c != '\'');
        lemma_run_end(s, p + 1, |c: char| is_var_char(c));
        lemma_dq_scan(s, p + 1);
    }
    lemma_balanced_progress(s, p, seq!['$', '(', '('], Some('('), ')', 2);
    lemma_balanced_progress(s, p, seq!['$', '('], Some('('), ')', 1);
    lemma_balanced_progress(s, p, seq!['$', '{'], Some('{'), '}', 1);
    lemma_balanced_progress(s, p, seq!['`'], None, '`', 1);
}

/// The end of the longest sequence of word parts from `p`.
pub open spec fn word_parts_end(s: Seq<char>, p: int) -> int
    decreases s.len() - p,
{
    if 0 <= p <= s.len() {
        match spec_word_part(s, p) {
            Some(e) => {
                proof {
                    lemma_word_part(s, p);
                }
                word_parts_end(s, e)
            },
            None => p,
        }
    } else {
        p
    }
}

pub proof fn lemma_word_parts_end(s: Seq<char>, p: int)
    requires
        0 <= p <= s.len(),
    ensures
        p <= word_parts_end(s, p) <= s.len(),
    decreases s.len() - p,
{
    lemma_word_part(s, p);
    if let Some(e) = spec_word_part(s, p) {
        lemma_word_parts_end(s, e);
    }
}

/// A word: one or more word parts with nothing between them.
pub open spec fn spec_word_end(s: Seq<char>, p: int) -> Option<int> {
    let e = word_parts_end(s, p);
    if e > p {
        Some(e)
    } else {
        None
    }
}

/// The word that `spec_word_end` delimits, with its text and location.
pub open spec fn word_at(s: Seq<char>, p: int, e: int) -> SWord {
    SWord { value: s.subrange(p, e), loc: Some(span(p, e)) }
}

#[verifier::opaque]
pub open spec fn spec_word(s: Seq<char>, p: int) -> Option<(int, SWord)> {
    match spec_word_end(s, p) {
        Some(e) => Some((e, word_at(s, p, e))),
        None => None,
    }
}

#[verifier::opaque]
pub open spec fn spec_is_reserved_word(w: Seq<char>) -> bool {
    w == "!"@ || w == "{"@ || w == "}"@ || w == "case"@ || w == "coproc"@ || w == "do"@
        || w == "done"@ || w == "elif"@ || w == "else"@ || w == "esac"@ || w == "fi"@
        || w == "for"@ || w == "function"@ || w == "if"@ || w == "in"@ || w == "select"@
        || w == "then"@ || w == "time"@ || w == "until"@ || w == "while"@ || w == "[["@
        || w == "]]"@
}

/// Characters that may follow a keyword.
pub open spec fn is_keyword_boundary(c: char) -> bool {
    c == ' ' || c == '\t' || c == '\n' || c == '\r' || c == '|' || c == '&' || c == ';'
        || c == '<' || c == '>' || c == '(' || c == ')'
}

/// Optional spaces, then the keyword `kw`, which must end the input or be followed
/// by a blank or an operator character.
#[verifier::opaque]
pub open spec fn spec_keyword(s: Seq<char>, p: int, kw: Seq<char>) -> Option<int> {
    let q = spaces_end(s, p);
    let e = q + kw.len();
    if lit_at(s, q, kw) && (e == s.len() || is_keyword_boundary(s[e])) {
        Some(e)
    } else {
        None
    }
}

pub proof fn lemma_keyword(s: Seq<char>, p: int, kw: Seq<char>)
    requires
        0 <= p <= s.len(),
        kw.len() > 0,
    ensures
        spec_keyword(s, p, kw) matches Some(e) ==> p < e <= s.len(),
{
    reveal(spec_keyword);
    lemma_spaces(s, p);
}

/// Each word that is found consumes at least one character.
pub proof fn lemma_word(s: Seq<char>, p: int)
    requires
        0 <= p <= s.len(),
    ensures
        spec_word(s, p) matches Some((e, _)) ==> p < e <= s.len(),
{
    reveal(spec_word);
    lemma_word_parts_end(s, p);
}

// ---------------------------------------------------------------- exec

/// A bare word: one or more characters that are neither whitespace, nor operators,
/// nor the start of a quote or an expansion.
pub fn bare_word(s: &[char], pos: usize) -> (r: Option<usize>)
    requires
        pos <= s@.len(),
    ensures
        opt_pos(r) == spec_bare_word(s@, pos as int),
        r matches Some(e) ==> pos < e <= s@.len(),
{
    let mut i = pos;
    while i < s.len() && word_char(s[i])
        invariant
            pos <= i <= s@.len(),
            run_end(s@, i as int, |c: char| is_word_char(c)) == run_end(
                s@,
                pos as int,
                |c: char| is_word_char(c),
            ),
        decreases s@.len() - i,
    {
        i = i + 1;
    }
    if i > pos {
        Some(i)
    } else {
        None
    }
}

/// A simple variable reference `$NAME`, the name made of alphanumeric characters and
/// underscores.
pub fn simple_variable(s: &[char], pos: usize) -> (r: Option<usize>)
    requires
        pos <= s@.len(),
    ensures
        opt_pos(r) == spec_simple_variable(s@, pos as int),
{
    if !(pos < s.len() && s[pos] == '$') {
        return None;
    }
    let mut i = pos + 1;
    while i < s.len() && (is_alphanumeric(s[i]) || s[i] == '_')
        invariant
            pos < i <= s@.len(),
            run_end(s@, i as int, |c: char| is_var_char(c)) == run_end(
                s@,
                pos + 1,
                |c: char| is_var_char(c),
            ),
        decreases s@.len() - i,
    {
        i = i + 1;
    }
    if i > pos + 1 {
        Some(i)
    } else {
        None
    }
}

/// A braced variable reference `${...}`, braces balanced.
pub fn braced_variable(s: &[char], pos: usize) -> (r: Option<usize>)
    requires
        pos <= s@.len(),
    ensures
        opt_pos(r) == spec_braced_variable(s@, pos as int),
{
    proof {
        reveal_strlit("${");
        assert("${"@ =~= seq!['$', '{']);
    }
    parse_balanced_delimiters(s, pos, "${", Some('{'), '}', 1)
}

/// An arithmetic expansion `$((...))`, parentheses balanced.
pub fn arithmetic_expansion(s: &[char], pos: usize) -> (r: Option<usize>)
    requires
        pos <= s@.len(),
    ensures
        opt_pos(r) == spec_arithmetic_expansion(s@, pos as int),
{
    proof {
        reveal_strlit("$((");
        assert("$(("@ =~= seq!['$', '(', '(']);
    }
    parse_balanced_delimiters(s, pos, "$((", Some('('), ')', 2)
}

/// A command substitution `$(...)`, parentheses balanced; `$((` is left to
/// arithmetic expansion.
pub fn command_substitution(s: &[char], pos: usize) -> (r: Option<usize>)
    requires
        pos <= s@.len(),
    ensures
        opt_pos(r) == spec_command_substitution(s@, pos as int),
{
    proof {
        reveal_strlit("$((");
        assert("$(("@ =~= seq!['$', '(', '(']);
        reveal_strlit("$(");
        assert("$("@ =~= seq!['$', '(']);
    }
    if literal_at(s, pos, "$((") {
        None
    } else {
        parse_balanced_delimiters(s, pos, "$(", Some('('), ')', 1)
    }
}

/// A backtick command substitution `` `...` ``.
pub fn backtick_substitution(s: &[char], pos: usize) -> (r: Option<usize>)
    requires
        pos <= s@.len(),
    ensures
        opt_pos(r) == spec_backtick_substitution(s@, pos as int),
{
    proof {
        reveal_strlit("`");
        assert("`"@ =~= seq!['`']);
    }
    parse_balanced_delimiters(s, pos, "`", None, '`', 1)
}

fn special_param_char(c: char) -> (b: bool)
    ensures
        b == is_special_param_char(c),
{
    ascii_digit(c) || c == '?' || c == '@' || c == '*' || c == '#' || c == '$' || c == '!'
        || c == '-' || c == '_'
}

/// A special parameter: `$` followed by a digit or one of `? @ * # $ ! - _`.
pub fn special_parameter(s: &[char], pos: usize) -> (r: Option<usize>)
    requires
        pos <= s@.len(),
    ensures
        opt_pos(r) == spec_special_parameter(s@, pos as int),
{
    let n = s.len();
    if pos < n && s[pos] == '$' && pos + 1 < n && special_param_char(s[pos + 1]) {
        Some(pos + 2)
    } else {
        None
    }
}

/// A single-quoted string, quotes included.
pub fn single_quoted_string(s: &[char], pos: usize) -> (r: Option<usize>)
    requires
        pos <= s@.len(),
    ensures
        opt_pos(r) == spec_single_quoted(s@, pos as int),
{
    if !(pos < s.len() && s[pos] == '\'') {
        return None;
    }
    let mut i = pos + 1;
    while i < s.len() && s[i] != '\''
        invariant
            pos < i <= s@.len(),
            run_end(s@, i as int, |c: char| c != '\'') == run_end(s@, pos + 1, |c: char| c != '\''),
        decreases s@.len() - i,
    {
        i = i + 1;
    }
    if i < s.len() {
        Some(i + 1)
    } else {
        None
    }
}

/// A double-quoted string, quotes included; a backslash escapes the next character.
pub fn double_quoted_string(s: &[char], pos: usize) -> (r: Option<usize>)
    requires
        pos <= s@.len(),
    ensures
        opt_pos(r) == spec_double_quoted(s@, pos as int),
{
    if !(pos < s.len() && s[pos] == '"') {
        return None;
    }
    let mut i = pos + 1;
    loop
        invariant
            pos < i <= s@.len(),
            dq_scan(s@, i as int) == spec_double_quoted(s@, pos as int),
        decreases s@.len() - i,
    {
        if i >= s.len() {
            return None;
        }
        if s[i] == '"' {
            return Some(i + 1);
        } else if s[i] == '\\' {
            if i + 1 < s.len() {
                i = i + 2;
            } else {
                return None;
            }
        } else {
            i = i + 1;
        }
    }
}

/// A backslash and the character it escapes.
pub fn escaped_char(s: &[char], pos: usize) -> (r: Option<usize>)
    requires
        pos <= s@.len(),
    ensures
        opt_pos(r) == spec_escape(s@, pos as int),
{
    let n = s.len();
    if pos < n && s[pos] == '\\' && pos + 1 < n {
        Some(pos + 2)
    } else {
        None
    }
}

/// One part of a word (see `spec_word_part` for the alternatives, in order).
pub fn word_part(s: &[char], pos: usize) -> (r: Option<usize>)
    requires
        pos <= s@.len(),
    ensures
        opt_pos(r) == spec_word_part(s@, pos as int),
        r matches Some(e) ==> pos < e <= s@.len(),
{
    proof {
        lemma_word_part(s@, pos as int);
    }
    let r = single_quoted_string(s, pos);
    if r.is_some() {
        return r;
    }
    let r = double_quoted_string(s, pos);
    if r.is_some() {
        return r;
    }
    let r = escaped_char(s, pos);
    if r.is_some() {
        return r;
    }
    let r = arithmetic_expansion(s, pos);
    if r.is_some() {
        return r;
    }
    let r = command_substitution(s, pos);
    if r.is_some() {
        return r;
    }
    let r = braced_variable(s, pos);
    if r.is_some() {
        return r;
    }
    let r = special_parameter(s, pos);
    if r.is_some() {
        return r;
    }
    let r = simple_variable(s, pos);
    if r.is_some() {
        return r;
    }
    let r = backtick_substitution(s, pos);
    if r.is_some() {
        return r;
    }
    if pos < s.len() && s[pos] == '$' {
        return Some(pos + 1);
    }
    bare_word(s, pos)
}

/// The end of the longest sequence of word parts from `pos`.
pub fn word_parts(s: &[char], pos: usize) -> (e: usize)
    requires
        pos <= s@.len(),
    ensures
        e == word_parts_end(s@, pos as int),
        pos <= e <= s@.len(),
{
    let mut i = pos;
    loop
        invariant
            pos <= i <= s@.len(),
            word_parts_end(s@, i as int) == word_parts_end(s@, pos as int),
        decreases s@.len() - i,
    {
        match word_part(s, i) {
            Some(e) => {
                i = e;
            },
            None => {
                return i;
            },
        }
    }
}

/// A word, with its text and location.
pub fn word_as_ast(s: &[char], pos: usize) -> (r: Option<(usize, Word)>)
    requires
        pos <= s@.len(),
    ensures
        r matches Some((e, w)) ==> spec_word(s@, pos as int) == Some((e as int, w@)),
        r is None ==> spec_word(s@, pos as int) is None,
        r matches Some((e, w)) ==> pos < e <= s@.len() && w@ == word_at(s@, pos as int, e as int),
{
    reveal(spec_word);
    let e = word_parts(s, pos);
    if e > pos {
        let value = string_from_chars(s, pos, e);
        Some((e, Word { value, loc: Some(SourceSpan { start: pos, end: e }) }))
    } else {
        None
    }
}

/// Whether the characters `s[start..end]` are exactly those of `lit`.
pub fn text_eq(s: &[char], start: usize, end: usize, lit: &str) -> (b: bool)
    requires
        start <= end <= s@.len(),
    ensures
        b == (s@.subrange(start as int, end as int) == lit@),
{
    let n = lit.unicode_len();
    if end - start != n {
        return false;
    }
    let b = literal_at(s, start, lit);
    proof {
        assert(start + lit@.len() == end);
    }
    b
}

/// Whether the characters `s[start..end]` are a reserved word of the shell.
pub fn reserved_word_at(s: &[char], start: usize, end: usize) -> (b: bool)
    requires
        start <= end <= s@.len(),
    ensures
        b == spec_is_reserved_word(s@.subrange(start as int, end as int)),
{
    reveal(spec_is_reserved_word);
    text_eq(s, start, end, "!")
        || text_eq(s, start, end, "{")
        || text_eq(s, start, end, "}")
        || text_eq(s, start, end, "case")
        || text_eq(s, start, end, "coproc")
        || text_eq(s, start, end, "do")
        || text_eq(s, start, end, "done")
        || text_eq(s, start, end, "elif")
        || text_eq(s, start, end, "else")
        || text_eq(s, start, end, "esac")
        || text_eq(s, start, end, "fi")
        || text_eq(s, start, end, "for")
        || text_eq(s, start, end, "function")
        || text_eq(s, start, end, "if")
        || text_eq(s, start, end, "in")
        || text_eq(s, start, end, "select")
        || text_eq(s, start, end, "then")
        || text_eq(s, start, end, "time")
        || text_eq(s, start, end, "until")
        || text_eq(s, start, end, "while")
        || text_eq(s, start, end, "[[")
        || text_eq(s, start, end, "]]")
}

/// Whether `w` is a reserved word of the shell.
pub fn is_reserved_word(w: &str) -> (b: bool)
    ensures
        b == spec_is_reserved_word(w@),
{
    let cs = crate::chars::chars_of(w);
    proof {
        assert(cs@.subrange(0, cs@.len() as int) =~= w@);
    }
    reserved_word_at(cs.as_slice(), 0, cs.len())
}

fn keyword_boundary(c: char) -> (b: bool)
    ensures
        b == is_keyword_boundary(c),
{
    c == ' ' || c == '\t' || c == '\n' || c == '\r' || c == '|' || c == '&' || c == ';'
        || c == '<' || c == '>' || c == '(' || c == ')'
}

/// The keyword `kw`, after optional spaces, followed by the end of input, a blank or
/// an operator character.
pub fn keyword(s: &[char], pos: usize, kw: &str) -> (r: Option<usize>)
    requires
        pos <= s@.len(),
    ensures
        opt_pos(r) == spec_keyword(s@, pos as int, kw@),
        r matches Some(e) ==> pos + kw@.len() <= e <= s@.len(),
{
    reveal(spec_keyword);
    let len = s.len();
    let q = spaces(s, pos);
    let n = kw.unicode_len();
    if literal_at(s, q, kw) {
        let e = q + n;
        if e == s.len() || keyword_boundary(s[e]) {
            return Some(e);
        }
    }
    None
}

} // verus!
