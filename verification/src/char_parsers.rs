//! Character-level scanners: the leaves of the grammar. Each scanner looks at the
//! input `s` from position `pos` and answers where the token it recognises ends
//! (or `None` where the token does not start there).

use vstd::prelude::*;
use crate::chars::{is_ascii_alnum, is_blank, blank, ascii_alpha, ascii_digit};

verus! {

/// An exec position answer seen as a mathematical one.
pub open spec fn opt_pos(r: Option<usize>) -> Option<int> {
    match r {
        Some(e) => Some(e as int),
        None => None,
    }
}

/// `s[p]` exists and is `c`.
pub open spec fn at(s: Seq<char>, p: int, c: char) -> bool {
    0 <= p < s.len() && s[p] == c
}

/// `lit` stands in `s` from `p` on.
pub open spec fn lit_at(s: Seq<char>, p: int, lit: Seq<char>) -> bool {
    0 <= p && p + lit.len() <= s.len() && s.subrange(p, p + lit.len()) == lit
}

/// The end of the longest run of characters satisfying `f` that starts at `p`.
pub open spec fn run_end(s: Seq<char>, p: int, f: spec_fn(char) -> bool) -> int
    decreases s.len() - p,
{
    if 0 <= p < s.len() && f(s[p]) {
        run_end(s, p + 1, f)
    } else {
        p
    }
}

pub proof fn lemma_run_end(s: Seq<char>, p: int, f: spec_fn(char) -> bool)
    requires
        0 <= p <= s.len(),
    ensures
        p <= run_end(s, p, f) <= s.len(),
        forall|i: int| p <= i < run_end(s, p, f) ==> #[trigger] f(s[i]),
        run_end(s, p, f) == s.len() || !f(s[run_end(s, p, f)]),
    decreases s.len() - p,
{
    if p < s.len() && f(s[p]) {
        lemma_run_end(s, p + 1, f);
    }
}

pub open spec fn not_newline(c: char) -> bool {
    c != '\n'
}

pub open spec fn is_op2_char(c: char) -> bool {
    c == '<' || c == '>' || c == '&' || c == '|'
}

pub open spec fn is_op3_char(c: char) -> bool {
    c == ';' || c == '&'
}

pub open spec fn is_extglob_prefix(c: char) -> bool {
    c == '@' || c == '!' || c == '?' || c == '+' || c == '*'
}

/// POSIX portable filename characters, as allowed in the user name of `~user`.
pub open spec fn is_username_char_spec(c: char) -> bool {
    is_ascii_alnum(c) || c == '.' || c == '_' || c == '-' || c == '+'
}

/// Characters that may follow a tilde expression.
pub open spec fn is_tilde_terminator(c: char) -> bool {
    c == '/' || c == ':' || c == ';' || c == '}' || c == ' ' || c == '\t' || c == '\n'
        || c == '&' || c == '|' || c == '<' || c == '>'
}

/// End of the comment text after a `#` at `p` (up to, not including, the newline).
pub open spec fn comment_end(s: Seq<char>, p: int) -> int {
    run_end(s, p + 1, |c: char| not_newline(c))
}

pub open spec fn blank_run_end(s: Seq<char>, p: int) -> int {
    run_end(s, p, |c: char| is_blank(c))
}

pub open spec fn spec_peek_char(s: Seq<char>, p: int) -> Option<char> {
    if 0 <= p < s.len() {
        Some(s[p])
    } else {
        None
    }
}

/// One or two operator characters among `< > & |`, looked at but not consumed.
pub open spec fn spec_peek_op2(s: Seq<char>, p: int) -> Option<int> {
    if 0 <= p < s.len() && is_op2_char(s[p]) {
        if p + 1 < s.len() && is_op2_char(s[p + 1]) {
            Some(p + 2)
        } else {
            Some(p + 1)
        }
    } else {
        None
    }
}

/// Two or three characters among `; &`, looked at but not consumed.
#[verifier::opaque]
pub open spec fn spec_peek_op3(s: Seq<char>, p: int) -> Option<int> {
    if 0 <= p && p + 1 < s.len() && is_op3_char(s[p]) && is_op3_char(s[p + 1]) {
        if p + 2 < s.len() && is_op3_char(s[p + 2]) {
            Some(p + 3)
        } else {
            Some(p + 2)
        }
    } else {
        None
    }
}

/// The scan after the opening delimiter: `depth` closers are still owed.
pub open spec fn balanced_scan(
    s: Seq<char>,
    p: int,
    open: Option<char>,
    close: char,
    depth: nat,
) -> Option<int>
    decreases s.len() - p,
{
    if depth == 0 {
        Some(p)
    } else if p < 0 || p >= s.len() {
        None
    } else if open == Some(s[p]) {
        balanced_scan(s, p + 1, open, close, depth + 1)
    } else if s[p] == close {
        balanced_scan(s, p + 1, open, close, (depth - 1) as nat)
    } else if s[p] == '\\' && p + 1 < s.len() {
        balanced_scan(s, p + 2, open, close, depth)
    } else {
        balanced_scan(s, p + 1, open, close, depth)
    }
}

pub open spec fn spec_balanced(
    s: Seq<char>,
    p: int,
    prefix: Seq<char>,
    open: Option<char>,
    close: char,
    depth: nat,
) -> Option<int> {
    if lit_at(s, p, prefix) {
        balanced_scan(s, p + prefix.len(), open, close, depth)
    } else {
        None
    }
}

pub open spec fn spec_extglob_pattern(s: Seq<char>, p: int) -> Option<int> {
    if 0 <= p < s.len() && is_extglob_prefix(s[p]) {
        spec_balanced(s, p + 1, seq!['('], Some('('), ')', 1)
    } else {
        None
    }
}

pub open spec fn spec_tilde_expansion(s: Seq<char>, p: int) -> Option<int> {
    if at(s, p, '~') {
        let e = run_end(s, p + 1, |c: char| is_username_char_spec(c));
        if e == s.len() || is_tilde_terminator(s[e]) {
            Some(e)
        } else {
            None
        }
    } else {
        None
    }
}

pub open spec fn spec_newline(s: Seq<char>, p: int) -> Option<int> {
    if at(s, p, '\n') {
        Some(p + 1)
    } else {
        None
    }
}

pub open spec fn spec_comment(s: Seq<char>, p: int) -> Option<int> {
    if at(s, p, '#') {
        Some(comment_end(s, p))
    } else {
        None
    }
}

/// End of the blanks, comments and backslash-newline continuations from `p`
/// (newlines excluded); `nl` also counts newlines as blanks (inside array literals).
pub open spec fn gap_end(s: Seq<char>, p: int, nl: bool) -> int
    decreases s.len() - p,
{
    if 0 <= p < s.len() {
        if is_blank(s[p]) || (nl && s[p] == '\n') {
            gap_end(s, p + 1, nl)
        } else if s[p] == '\\' && p + 1 < s.len() && s[p + 1] == '\n' {
            gap_end(s, p + 2, nl)
        } else if s[p] == '#' {
            proof {
                lemma_run_end(s, p + 1, |c: char| not_newline(c));
            }
            gap_end(s, comment_end(s, p), nl)
        } else {
            p
        }
    } else {
        p
    }
}

#[verifier::opaque]
pub open spec fn spaces_end(s: Seq<char>, p: int) -> int {
    gap_end(s, p, false)
}

pub open spec fn array_spaces_end(s: Seq<char>, p: int) -> int {
    gap_end(s, p, true)
}

/// At least one blank, then an optional comment.
#[verifier::opaque]
pub open spec fn spec_spaces1(s: Seq<char>, p: int) -> Option<int> {
    if 0 <= p < s.len() && is_blank(s[p]) {
        let e = blank_run_end(s, p);
        if at(s, e, '#') {
            Some(comment_end(s, e))
        } else {
            Some(e)
        }
    } else {
        None
    }
}

pub proof fn lemma_gap_end(s: Seq<char>, p: int, nl: bool)
    requires
        0 <= p <= s.len(),
    ensures
        p <= gap_end(s, p, nl) <= s.len(),
    decreases s.len() - p,
{
    if p < s.len() {
        if is_blank(s[p]) || (nl && s[p] == '\n') {
            lemma_gap_end(s, p + 1, nl);
        } else if s[p] == '\\' && p + 1 < s.len() && s[p + 1] == '\n' {
            lemma_gap_end(s, p + 2, nl);
        } else if s[p] == '#' {
            lemma_run_end(s, p + 1, |c: char| not_newline(c));
            lemma_gap_end(s, comment_end(s, p), nl);
        }
    }
}

pub proof fn lemma_spaces(s: Seq<char>, p: int)
    requires
        0 <= p <= s.len(),
    ensures
        p <= spaces_end(s, p) <= s.len(),
        spec_spaces1(s, p) matches Some(e) ==> p < e <= s.len(),
{
    reveal(spaces_end);
    reveal(spec_spaces1);
    lemma_gap_end(s, p, false);
    lemma_run_end(s, p, |c: char| is_blank(c));
    let b = blank_run_end(s, p);
    if b < s.len() {
        lemma_run_end(s, b + 1, |c: char| not_newline(c));
    }
}

pub proof fn lemma_balanced_scan(s: Seq<char>, p: int, open: Option<char>, close: char, depth: nat)
    requires
        0 <= p <= s.len(),
    ensures
        balanced_scan(s, p, open, close, depth) matches Some(e) ==> p <= e <= s.len(),
        depth > 0 && balanced_scan(s, p, open, close, depth) is Some ==> balanced_scan(
            s,
            p,
            open,
            close,
            depth,
        ).unwrap() > p,
    decreases s.len() - p,
{
    if depth > 0 && p < s.len() {
        if open == Some(s[p]) {
            lemma_balanced_scan(s, p + 1, open, close, depth + 1);
        } else if s[p] == close {
            lemma_balanced_scan(s, p + 1, open, close, (depth - 1) as nat);
        } else if s[p] == '\\' && p + 1 < s.len() {
            lemma_balanced_scan(s, p + 2, open, close, depth);
        } else {
            lemma_balanced_scan(s, p + 1, open, close, depth);
        }
    }
}

// ---------------------------------------------------------------- exec scanners

pub fn at_char(s: &[char], p: usize, c: char) -> (b: bool)
    ensures
        b == at(s@, p as int, c),
{
    p < s.len() && s[p] == c
}

/// Whether the characters of `lit` stand in `s` from `p` on.
pub fn literal_at(s: &[char], p: usize, lit: &str) -> (b: bool)
    ensures
        b == lit_at(s@, p as int, lit@),
{
    let len = s.len();
    let n = lit.unicode_len();
    if p > len || n > s.len() - p {
        return false;
    }
    let mut i: usize = 0;
    while i < n
        invariant
            n == lit@.len(),
            p + n <= s@.len(),
            s@.len() <= usize::MAX,
            i <= n,
            forall|j: int| 0 <= j < i ==> s@[p + j] == lit@[j],
        decreases n - i,
    {
        if s[p + i] != lit.get_char(i) {
            assert(s@.subrange(p as int, p + n)[i as int] != lit@[i as int]);
            return false;
        }
        i = i + 1;
    }
    assert(s@.subrange(p as int, p + n) =~= lit@);
    true
}

/// End of the run of characters that are not newlines, from `p`.
pub fn scan_to_newline(s: &[char], p: usize) -> (e: usize)
    requires
        p <= s@.len(),
    ensures
        e == run_end(s@, p as int, |c: char| not_newline(c)),
{
    let mut i = p;
    while i < s.len() && s[i] != '\n'
        invariant
            p <= i <= s@.len(),
            run_end(s@, i as int, |c: char| not_newline(c)) == run_end(
                s@,
                p as int,
                |c: char| not_newline(c),
            ),
        decreases s@.len() - i,
    {
        i = i + 1;
    }
    i
}

pub fn scan_blanks(s: &[char], p: usize) -> (e: usize)
    requires
        p <= s@.len(),
    ensures
        e == blank_run_end(s@, p as int),
{
    let mut i = p;
    while i < s.len() && blank(s[i])
        invariant
            p <= i <= s@.len(),
            blank_run_end(s@, i as int) == blank_run_end(s@, p as int),
        decreases s@.len() - i,
    {
        i = i + 1;
    }
    i
}

/// Look at the next character without consuming it.
pub fn peek_char(s: &[char], pos: usize) -> (r: Option<char>)
    ensures
        r == spec_peek_char(s@, pos as int),
{
    if pos < s.len() {
        Some(s[pos])
    } else {
        None
    }
}

/// Look at the next one or two operator characters (`< > & |`), for dispatch.
pub fn peek_op2(s: &[char], pos: usize) -> (r: Option<usize>)
    ensures
        opt_pos(r) == spec_peek_op2(s@, pos as int),
{
    if pos < s.len() && is_op2(s[pos]) {
        if pos + 1 < s.len() && is_op2(s[pos + 1]) {
            Some(pos + 2)
        } else {
            Some(pos + 1)
        }
    } else {
        None
    }
}

fn is_op2(c: char) -> (b: bool)
    ensures
        b == is_op2_char(c),
{
    c == '<' || c == '>' || c == '&' || c == '|'
}

fn is_op3(c: char) -> (b: bool)
    ensures
        b == is_op3_char(c),
{
    c == ';' || c == '&'
}

/// Look at the next two or three characters among `; &` (case item terminators).
pub fn peek_op3(s: &[char], pos: usize) -> (r: Option<usize>)
    ensures
        opt_pos(r) == spec_peek_op3(s@, pos as int),
        r matches Some(e) ==> pos < e <= s@.len(),
{
    reveal(spec_peek_op3);
    if pos < s.len() && s.len() - pos >= 2 && is_op3(s[pos]) && is_op3(s[pos + 1]) {
        if pos + 2 < s.len() && is_op3(s[pos + 2]) {
            Some(pos + 3)
        } else {
            Some(pos + 2)
        }
    } else {
        None
    }
}

/// Content with balanced delimiters: `prefix` first, then characters until the
/// delimiters balance; `open` raises the depth, `close` lowers it, a backslash
/// escapes the next character. Answers the end of the whole slice.
pub fn parse_balanced_delimiters(
    s: &[char],
    pos: usize,
    prefix: &str,
    open_char: Option<char>,
    close_char: char,
    initial_depth: usize,
) -> (r: Option<usize>)
    requires
        pos <= s@.len(),
    ensures
        opt_pos(r) == spec_balanced(s@, pos as int, prefix@, open_char, close_char, initial_depth as nat),
{
    let len = s.len();
    let n = prefix.unicode_len();
    if !literal_at(s, pos, prefix) {
        return None;
    }
    let mut i = pos + n;
    let mut depth: u128 = initial_depth as u128;
    while depth > 0
        invariant
            pos <= i <= s@.len(),
            s@.len() <= usize::MAX,
            depth + (s@.len() - i) <= initial_depth + s@.len(),
            balanced_scan(s@, i as int, open_char, close_char, depth as nat) == spec_balanced(
                s@,
                pos as int,
                prefix@,
                open_char,
                close_char,
                initial_depth as nat,
            ),
        decreases s@.len() - i,
    {
        if i >= s.len() {
            return None;
        }
        let ch = s[i];
        if open_char == Some(ch) {
            depth = depth + 1;
            i = i + 1;
        } else if ch == close_char {
            depth = depth - 1;
            i = i + 1;
        } else if ch == '\\' && i + 1 < s.len() {
            i = i + 2;
        } else {
            i = i + 1;
        }
    }
    Some(i)
}

fn is_extglob(c: char) -> (b: bool)
    ensures
        b == is_extglob_prefix(c),
{
    c == '@' || c == '!' || c == '?' || c == '+' || c == '*'
}

/// An extended glob pattern `@(...)`, `!(...)`, `?(...)`, `+(...)` or `*(...)`,
/// prefix and parentheses included.
pub fn extglob_pattern(s: &[char], pos: usize) -> (r: Option<usize>)
    requires
        pos <= s@.len(),
    ensures
        opt_pos(r) == spec_extglob_pattern(s@, pos as int),
{
    if pos < s.len() && is_extglob(s[pos]) {
        let r = parse_balanced_delimiters(s, pos + 1, "(", Some('('), ')', 1);
        proof {
            reveal_strlit("(");
            assert("("@ =~= seq!['(']);
        }
        r
    } else {
        None
    }
}

/// Whether `c` may stand in the user name of a tilde expression.
pub fn is_username_char(c: char) -> (b: bool)
    ensures
        b == is_username_char_spec(c),
{
    ascii_alpha(c) || ascii_digit(c) || c == '.' || c == '_' || c == '-' || c == '+'
}

fn tilde_terminator(c: char) -> (b: bool)
    ensures
        b == is_tilde_terminator(c),
{
    c == '/' || c == ':' || c == ';' || c == '}' || c == ' ' || c == '\t' || c == '\n'
        || c == '&' || c == '|' || c == '<' || c == '>'
}

/// A tilde expression `~`, `~user`, `~+`, `~-`, `~+N`, `~-N`, which must be followed
/// by the end of input or one of `/ : ; } & | < >` or whitespace.
pub fn tilde_expansion(s: &[char], pos: usize) -> (r: Option<usize>)
    requires
        pos <= s@.len(),
    ensures
        opt_pos(r) == spec_tilde_expansion(s@, pos as int),
{
    if !(pos < s.len() && s[pos] == '~') {
        return None;
    }
    let mut i = pos + 1;
    while i < s.len() && is_username_char(s[i])
        invariant
            pos < i <= s@.len(),
            run_end(s@, i as int, |c: char| is_username_char_spec(c)) == run_end(
                s@,
                pos + 1,
                |c: char| is_username_char_spec(c),
            ),
        decreases s@.len() - i,
    {
        i = i + 1;
    }
    if i == s.len() || tilde_terminator(s[i]) {
        Some(i)
    } else {
        None
    }
}

/// A newline character.
pub fn newline(s: &[char], pos: usize) -> (r: Option<usize>)
    ensures
        opt_pos(r) == spec_newline(s@, pos as int),
{
    if pos < s.len() && s[pos] == '\n' {
        Some(pos + 1)
    } else {
        None
    }
}

/// A comment: `#` to the end of the line, the newline excluded.
pub fn comment(s: &[char], pos: usize) -> (r: Option<usize>)
    requires
        pos <= s@.len(),
    ensures
        opt_pos(r) == spec_comment(s@, pos as int),
{
    if pos < s.len() && s[pos] == '#' {
        Some(scan_to_newline(s, pos + 1))
    } else {
        None
    }
}

fn gap(s: &[char], pos: usize, nl: bool) -> (e: usize)
    requires
        pos <= s@.len(),
    ensures
        e == gap_end(s@, pos as int, nl),
        pos <= e <= s@.len(),
{
    let mut i = pos;
    loop
        invariant
            pos <= i <= s@.len(),
            gap_end(s@, i as int, nl) == gap_end(s@, pos as int, nl),
        decreases s@.len() - i,
    {
        if i >= s.len() {
            return i;
        }
        let c = s[i];
        if blank(c) || (nl && c == '\n') {
            i = i + 1;
        } else if c == '\\' && i + 1 < s.len() && s[i + 1] == '\n' {
            i = i + 2;
        } else if c == '#' {
            let e = scan_to_newline(s, i + 1);
            proof {
                lemma_run_end(s@, i + 1, |c: char| not_newline(c));
            }
            i = e;
        } else {
            return i;
        }
    }
}

/// Optional blanks, comments and backslash-newline continuations (not newlines).
pub fn spaces(s: &[char], pos: usize) -> (e: usize)
    requires
        pos <= s@.len(),
    ensures
        e == spaces_end(s@, pos as int),
        pos <= e <= s@.len(),
{
    reveal(spaces_end);
    gap(s, pos, false)
}

/// Required blanks (at least one space or tab), then an optional comment.
pub fn spaces1(s: &[char], pos: usize) -> (r: Option<usize>)
    requires
        pos <= s@.len(),
    ensures
        opt_pos(r) == spec_spaces1(s@, pos as int),
        r matches Some(e) ==> pos < e <= s@.len(),
{
    reveal(spec_spaces1);
    if pos < s.len() && blank(s[pos]) {
        let e = scan_blanks(s, pos);
        proof {
            lemma_run_end(s@, pos as int, |c: char| is_blank(c));
        }
        if at_char(s, e, '#') {
            proof {
                lemma_run_end(s@, e + 1, |c: char| not_newline(c));
            }
            Some(scan_to_newline(s, e + 1))
        } else {
            Some(e)
        }
    } else {
        None
    }
}

/// Whitespace inside array literals: like `spaces`, with newlines counted as blanks.
pub fn array_spaces(s: &[char], pos: usize) -> (e: usize)
    requires
        pos <= s@.len(),
    ensures
        e == array_spaces_end(s@, pos as int),
        pos <= e <= s@.len(),
{
    gap(s, pos, true)
}

} // verus!
