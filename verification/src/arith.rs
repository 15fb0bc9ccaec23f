//! Arithmetic expressions inside `(( ))` and `for (( ; ; ))`: where they end, and how
//! their text is normalised.

use vstd::prelude::*;
use crate::ast::{span, ArithmeticCommand, SArithmeticCommand, SourceSpan, UnexpandedArithmeticExpr};
use crate::char_parsers::{at, lemma_gap_end, spaces, spaces_end};
use crate::chars::{is_unicode_whitespace, is_whitespace, push_char, string_from_chars};

verus! {

/// Where an arithmetic expression that starts at `p` ends: at depth 0 it stops before
/// optional spaces followed by `)` `)` (spaces allowed between) or by `;`;
/// parentheses change the depth; otherwise any character is taken.
pub open spec fn arith_scan(s: Seq<char>, p: int, depth: int) -> int
    decreases s.len() - p,
{
    if p < 0 || p > s.len() {
        p
    } else if depth == 0 && ({
        let q = spaces_end(s, p);
        (at(s, q, ')') && at(s, spaces_end(s, q + 1), ')')) || at(s, q, ';')
    }) {
        p
    } else if at(s, p, '(') {
        arith_scan(s, p + 1, depth + 1)
    } else if at(s, p, ')') {
        arith_scan(s, p + 1, depth - 1)
    } else if p < s.len() {
        arith_scan(s, p + 1, depth)
    } else {
        p
    }
}

pub proof fn lemma_arith_scan(s: Seq<char>, p: int, depth: int)
    requires
        0 <= p <= s.len(),
    ensures
        p <= arith_scan(s, p, depth) <= s.len(),
    decreases s.len() - p,
{
    if !(depth == 0 && ({
        let q = spaces_end(s, p);
        (at(s, q, ')') && at(s, spaces_end(s, q + 1), ')')) || at(s, q, ';')
    })) {
        if at(s, p, '(') {
            lemma_arith_scan(s, p + 1, depth + 1);
        } else if at(s, p, ')') {
            lemma_arith_scan(s, p + 1, depth - 1);
        } else if p < s.len() {
            lemma_arith_scan(s, p + 1, depth);
        }
    }
}

/// The characters that shell arithmetic treats as operators.
pub open spec fn is_shell_op_char(c: char) -> bool {
    c == '<' || c == '>' || c == '|' || c == '&' || c == '(' || c == ')' || c == ';'
}

/// Index after the leading whitespace of `t`.
pub open spec fn trim_front(t: Seq<char>, i: int) -> int
    decreases t.len() - i,
{
    if 0 <= i < t.len() && is_unicode_whitespace(t[i]) {
        trim_front(t, i + 1)
    } else {
        i
    }
}

/// Index before the trailing whitespace of `t[lo..e]`.
pub open spec fn trim_back(t: Seq<char>, e: int, lo: int) -> int
    decreases e - lo,
{
    if e > lo && 0 < e <= t.len() && is_unicode_whitespace(t[e - 1]) {
        trim_back(t, e - 1, lo)
    } else {
        e
    }
}

/// `t` without leading and trailing whitespace.
pub open spec fn trim(t: Seq<char>) -> Seq<char> {
    let a = trim_front(t, 0);
    t.subrange(a, trim_back(t, t.len() as int, a))
}

/// The normalised text from index `i` of `t`: whitespace is dropped, except that one
/// space is kept between two characters that are not operators and had whitespace
/// between them.
pub open spec fn norm_fold(t: Seq<char>, i: int, last_was_word: bool, pending_space: bool) -> Seq<char>
    decreases t.len() - i,
{
    if i < 0 || i >= t.len() {
        Seq::empty()
    } else if is_unicode_whitespace(t[i]) {
        norm_fold(t, i + 1, last_was_word, true)
    } else if is_shell_op_char(t[i]) {
        seq![t[i]] + norm_fold(t, i + 1, false, false)
    } else {
        (if pending_space && last_was_word {
            seq![' ']
        } else {
            Seq::empty()
        }) + seq![t[i]] + norm_fold(t, i + 1, true, false)
    }
}

pub open spec fn spec_normalize(t: Seq<char>) -> Seq<char> {
    norm_fold(trim(t), 0, false, false)
}

/// The expression from `p`: its end and its normalised text.
#[verifier::opaque]
pub open spec fn spec_arithmetic_expression(s: Seq<char>, p: int) -> (int, Seq<char>) {
    let e = arith_scan(s, p, 0);
    (e, spec_normalize(s.subrange(p, e)))
}

/// `(( expr ))`, spaces allowed between the parentheses of each pair.
#[verifier::opaque]
pub open spec fn spec_arithmetic_command(s: Seq<char>, p: int) -> Option<(int, SArithmeticCommand)> {
    let q = spaces_end(s, p + 1);
    if at(s, p, '(') && at(s, q, '(') {
        let (e, text) = spec_arithmetic_expression(s, q + 1);
        let c1 = spaces_end(s, e);
        let c2 = spaces_end(s, c1 + 1);
        if at(s, c1, ')') && at(s, c2, ')') {
            Some((c2 + 1, SArithmeticCommand { expr: text, loc: span(p, c2 + 1) }))
        } else {
            None
        }
    } else {
        None
    }
}

pub proof fn lemma_arithmetic_command(s: Seq<char>, p: int)
    requires
        0 <= p <= s.len(),
    ensures
        spec_arithmetic_command(s, p) matches Some((e, _)) ==> p < e <= s.len(),
        p <= spec_arithmetic_expression(s, p).0 <= s.len(),
{
    reveal(spec_arithmetic_command);
    reveal(spec_arithmetic_expression);
    reveal(spaces_end);
    lemma_arith_scan(s, p, 0);
    if p < s.len() {
        lemma_gap_end(s, p + 1, false);
        let q = spaces_end(s, p + 1);
        if q < s.len() {
            lemma_arith_scan(s, q + 1, 0);
            let e = arith_scan(s, q + 1, 0);
            lemma_gap_end(s, e, false);
            let c1 = spaces_end(s, e);
            if c1 < s.len() {
                lemma_gap_end(s, c1 + 1, false);
            }
        }
    }
}

// ---------------------------------------------------------------- exec

fn shell_op(c: char) -> (b: bool)
    ensures
        b == is_shell_op_char(c),
{
    c == '<' || c == '>' || c == '|' || c == '&' || c == '(' || c == ')' || c == ';'
}

/// The normalised text of `t[a..b]` (see `spec_normalize`).
pub fn normalize_chars(t: &[char], a: usize, b: usize) -> (r: String)
    requires
        a <= b <= t@.len(),
    ensures
        r@ == spec_normalize(t@.subrange(a as int, b as int)),
{
    let ghost u = t@.subrange(a as int, b as int);
    // leading whitespace
    let mut i = a;
    while i < b && is_whitespace(t[i])
        invariant
            a <= i <= b <= t@.len(),
            u == t@.subrange(a as int, b as int),
            trim_front(u, i - a) == trim_front(u, 0),
        decreases b - i,
    {
        i = i + 1;
    }
    // trailing whitespace
    let mut j = b;
    while j > i && is_whitespace(t[j - 1])
        invariant
            i <= j <= b <= t@.len(),
            a <= i,
            u == t@.subrange(a as int, b as int),
            trim_back(u, j - a, i - a) == trim_back(u, u.len() as int, i - a),
        decreases j - i,
    {
        j = j - 1;
    }
    let ghost v = u.subrange(i - a, j - a);
    assert(v == trim(u));
    let mut out = String::new();
    let mut k = i;
    let mut last_was_word = false;
    let mut pending_space = false;
    assert(v =~= t@.subrange(i as int, j as int));
    while k < j
        invariant
            i <= k <= j <= t@.len(),
            v == t@.subrange(i as int, j as int),
            out@ + norm_fold(v, k - i, last_was_word, pending_space) == norm_fold(v, 0, false, false),
        decreases j - k,
    {
        let c = t[k];
        if is_whitespace(c) {
            pending_space = true;
        } else if shell_op(c) {
            pending_space = false;
            last_was_word = false;
            push_char(&mut out, c);
        } else {
            if pending_space && last_was_word {
                push_char(&mut out, ' ');
            }
            pending_space = false;
            last_was_word = true;
            push_char(&mut out, c);
        }
        k = k + 1;
        assert(out@ + norm_fold(v, k - i, last_was_word, pending_space) =~= norm_fold(v, 0, false, false));
    }
    out
}

/// Normalises an arithmetic expression: trims it, drops whitespace around the shell
/// operators `< > | & ( ) ;`, and keeps one space between two other tokens that
/// whitespace separated.
pub fn normalize_arithmetic_expr(s: &str) -> (r: String)
    ensures
        r@ == spec_normalize(s@),
{
    let cs = crate::chars::chars_of(s);
    proof {
        assert(cs@.subrange(0, cs@.len() as int) =~= s@);
    }
    normalize_chars(cs.as_slice(), 0, cs.len())
}

/// Whether the scan of an arithmetic expression stops at `i` (see `arith_scan`).
fn arith_stops(s: &[char], i: usize, depth: i128) -> (b: bool)
    requires
        i <= s@.len(),
    ensures
        b ==> arith_scan(s@, i as int, depth as int) == i,
        !b ==> i < s@.len() && !(depth == 0 && ({
            let q = spaces_end(s@, i as int);
            (at(s@, q, ')') && at(s@, spaces_end(s@, q + 1), ')')) || at(s@, q, ';')
        })),
{
    let n = s.len();
    if i >= n {
        return true;
    }
    if depth == 0 {
        let q = spaces(s, i);
        let stop = if q < n && s[q] == ')' {
            let q2 = spaces(s, q + 1);
            q2 < n && s[q2] == ')'
        } else {
            false
        };
        if stop || (q < n && s[q] == ';') {
            return true;
        }
    }
    false
}

/// An arithmetic expression inside `(( ))`: up to `))` or `;` at depth 0; never fails.
pub fn arithmetic_expression(s: &[char], pos: usize) -> (r: (usize, UnexpandedArithmeticExpr))
    requires
        pos <= s@.len(),
    ensures
        (r.0 as int, r.1.value@) == spec_arithmetic_expression(s@, pos as int),
        pos <= r.0 <= s@.len(),
{
    reveal(spec_arithmetic_expression);
    let n = s.len();
    let mut i = pos;
    let mut depth: i128 = 0;
    while !arith_stops(s, i, depth)
        invariant
            pos <= i <= n == s@.len(),
            -(i - pos) <= depth <= i - pos,
            n <= usize::MAX,
            arith_scan(s@, i as int, depth as int) == arith_scan(s@, pos as int, 0),
        decreases n - i,
    {
        if s[i] == '(' {
            depth = depth + 1;
        } else if s[i] == ')' {
            depth = depth - 1;
        }
        i = i + 1;
    }
    proof {
        lemma_arith_scan(s@, pos as int, 0);
    }
    (i, UnexpandedArithmeticExpr { value: normalize_chars(s, pos, i) })
}

/// An arithmetic command `(( expr ))`.
pub fn arithmetic_command(s: &[char], pos: usize) -> (r: Option<(usize, ArithmeticCommand)>)
    requires
        pos <= s@.len(),
    ensures
        r matches Some((e, c)) ==> spec_arithmetic_command(s@, pos as int) == Some((e as int, c@)),
        r is None ==> spec_arithmetic_command(s@, pos as int) is None,
        r matches Some((e, c)) ==> pos < e <= s@.len(),
{
    proof {
        reveal(spec_arithmetic_command);
        lemma_arithmetic_command(s@, pos as int);
    }
    let n = s.len();
    if !(pos < n && s[pos] == '(') {
        return None;
    }
    let q = spaces(s, pos + 1);
    if !(q < n && s[q] == '(') {
        return None;
    }
    let (e, expr) = arithmetic_expression(s, q + 1);
    let c1 = spaces(s, e);
    if !(c1 < n && s[c1] == ')') {
        return None;
    }
    let c2 = spaces(s, c1 + 1);
    if !(c2 < n && s[c2] == ')') {
        return None;
    }
    Some((c2 + 1, ArithmeticCommand { expr, loc: SourceSpan { start: pos, end: c2 + 1 } }))
}

} // verus!
