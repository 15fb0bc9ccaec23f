//! Line breaks and separators.

use vstd::prelude::*;
use crate::ast::SeparatorOperator;
use crate::char_parsers::{
    at, blank_run_end, comment_end, lemma_run_end, not_newline, opt_pos, scan_blanks,
    scan_to_newline,
};
use crate::chars::is_blank;

pub use crate::char_parsers::{comment, newline, peek_op2, spaces};

verus! {

/// One line of a linebreak: optional blanks, an optional comment, then a newline.
pub open spec fn line_step(s: Seq<char>, p: int) -> Option<int> {
    let q = blank_run_end(s, p);
    let r = if at(s, q, '#') {
        comment_end(s, q)
    } else {
        q
    };
    if at(s, r, '\n') {
        Some(r + 1)
    } else {
        None
    }
}

pub proof fn lemma_line_step(s: Seq<char>, p: int)
    requires
        0 <= p <= s.len(),
    ensures
        line_step(s, p) matches Some(e) ==> p < e <= s.len(),
{
    lemma_run_end(s, p, |c: char| is_blank(c));
    let q = blank_run_end(s, p);
    if at(s, q, '#') {
        lemma_run_end(s, q + 1, |c: char| not_newline(c));
    }
}

/// End of zero or more (blank, comment, newline) lines from `p`.
#[verifier::opaque]
pub open spec fn linebreak_end(s: Seq<char>, p: int) -> int {
    linebreak_scan(s, p)
}

pub open spec fn linebreak_scan(s: Seq<char>, p: int) -> int
    decreases s.len() - p,
{
    if 0 <= p <= s.len() {
        match line_step(s, p) {
            Some(e) => {
                proof {
                    lemma_line_step(s, p);
                }
                linebreak_scan(s, e)
            },
            None => p,
        }
    } else {
        p
    }
}

pub proof fn lemma_linebreak_end(s: Seq<char>, p: int)
    requires
        0 <= p <= s.len(),
    ensures
        p <= linebreak_end(s, p) <= s.len(),
    decreases s.len() - p,
{
    reveal(linebreak_end);
    lemma_line_step(s, p);
    if let Some(e) = line_step(s, p) {
        lemma_linebreak_end(s, e);
    }
}

/// One or more lines: at least one newline.
#[verifier::opaque]
pub open spec fn spec_newline_list(s: Seq<char>, p: int) -> Option<int> {
    match line_step(s, p) {
        Some(e) => Some(linebreak_end(s, e)),
        None => None,
    }
}

/// `;` not followed by `;` or `&`, or `&` not followed by `&`.
pub open spec fn spec_separator_op(s: Seq<char>, p: int) -> Option<(int, SeparatorOperator)> {
    if at(s, p, ';') && !(at(s, p + 1, ';') || at(s, p + 1, '&')) {
        Some((p + 1, SeparatorOperator::Sequence))
    } else if at(s, p, '&') && !at(s, p + 1, '&') {
        Some((p + 1, SeparatorOperator::Async))
    } else {
        None
    }
}

/// A separator operator followed by a linebreak, or a newline list (`None`).
#[verifier::opaque]
pub open spec fn spec_separator(s: Seq<char>, p: int) -> Option<(int, Option<SeparatorOperator>)> {
    match spec_separator_op(s, p) {
        Some((e, op)) => Some((linebreak_end(s, e), Some(op))),
        None => match spec_newline_list(s, p) {
            Some(e) => Some((e, None)),
            None => None,
        },
    }
}

/// `;` followed by a linebreak, or a newline list.
#[verifier::opaque]
pub open spec fn spec_sequential_sep(s: Seq<char>, p: int) -> Option<int> {
    if at(s, p, ';') {
        Some(linebreak_end(s, p + 1))
    } else {
        spec_newline_list(s, p)
    }
}

pub proof fn lemma_separators(s: Seq<char>, p: int)
    requires
        0 <= p <= s.len(),
    ensures
        spec_newline_list(s, p) matches Some(e) ==> p < e <= s.len(),
        spec_separator(s, p) matches Some((e, _)) ==> p < e <= s.len(),
        spec_sequential_sep(s, p) matches Some(e) ==> p < e <= s.len(),
        spec_separator_op(s, p) matches Some((e, _)) ==> e == p + 1 <= s.len(),
{
    reveal(spec_newline_list);
    reveal(spec_separator);
    reveal(spec_sequential_sep);
    lemma_line_step(s, p);
    if let Some(e) = line_step(s, p) {
        lemma_linebreak_end(s, e);
    }
    if p < s.len() {
        lemma_linebreak_end(s, p + 1);
    }
}

fn step(s: &[char], p: usize) -> (r: Option<usize>)
    requires
        p <= s@.len(),
    ensures
        opt_pos(r) == line_step(s@, p as int),
{
    let q = scan_blanks(s, p);
    proof {
        lemma_run_end(s@, p as int, |c: char| is_blank(c));
    }
    let r = if q < s.len() && s[q] == '#' {
        scan_to_newline(s, q + 1)
    } else {
        q
    };
    if r < s.len() && s[r] == '\n' {
        Some(r + 1)
    } else {
        None
    }
}

/// Zero or more newlines, each optionally preceded by blanks and a comment.
pub fn linebreak(s: &[char], pos: usize) -> (e: usize)
    requires
        pos <= s@.len(),
    ensures
        e == linebreak_end(s@, pos as int),
        pos <= e <= s@.len(),
{
    reveal(linebreak_end);
    let mut i = pos;
    loop
        invariant
            pos <= i <= s@.len(),
            linebreak_scan(s@, i as int) == linebreak_scan(s@, pos as int),
            linebreak_end(s@, pos as int) == linebreak_scan(s@, pos as int),
        decreases s@.len() - i,
    {
        proof {
            lemma_line_step(s@, i as int);
        }
        match step(s, i) {
            Some(e) => {
                i = e;
            },
            None => {
                return i;
            },
        }
    }
}

/// One or more newlines, each optionally preceded by blanks and a comment.
pub fn newline_list(s: &[char], pos: usize) -> (r: Option<usize>)
    requires
        pos <= s@.len(),
    ensures
        opt_pos(r) == spec_newline_list(s@, pos as int),
        r matches Some(e) ==> pos < e <= s@.len(),
{
    proof {
        lemma_separators(s@, pos as int);
    }
    reveal(spec_newline_list);
    proof {
        lemma_line_step(s@, pos as int);
    }
    match step(s, pos) {
        Some(e) => Some(linebreak(s, e)),
        None => None,
    }
}

/// A separator operator: `;` (sequence) or `&` (asynchronous), not the start of
/// `;;`, `;&` or `&&`.
pub fn separator_op(s: &[char], pos: usize) -> (r: Option<(usize, SeparatorOperator)>)
    requires
        pos <= s@.len(),
    ensures
        r matches Some((e, op)) ==> spec_separator_op(s@, pos as int) == Some((e as int, op)),
        r is None ==> spec_separator_op(s@, pos as int) is None,
        r matches Some((e, _)) ==> e == pos + 1 <= s@.len(),
{
    let n = s.len();
    if pos < n && s[pos] == ';' && !(pos + 1 < n && (s[pos + 1] == ';' || s[pos + 1] == '&')) {
        Some((pos + 1, SeparatorOperator::Sequence))
    } else if pos < n && s[pos] == '&' && !(pos + 1 < n && s[pos + 1] == '&') {
        Some((pos + 1, SeparatorOperator::Async))
    } else {
        None
    }
}

/// A separator operator followed by a linebreak, or a newline list; the operator is
/// `None` where only newlines separate.
pub fn separator(s: &[char], pos: usize) -> (r: Option<(usize, Option<SeparatorOperator>)>)
    requires
        pos <= s@.len(),
    ensures
        r matches Some((e, op)) ==> spec_separator(s@, pos as int) == Some((e as int, op)),
        r is None ==> spec_separator(s@, pos as int) is None,
        r matches Some((e, _)) ==> pos < e <= s@.len(),
{
    proof {
        lemma_separators(s@, pos as int);
    }
    reveal(spec_separator);
    match separator_op(s, pos) {
        Some((e, op)) => Some((linebreak(s, e), Some(op))),
        None => match newline_list(s, pos) {
            Some(e) => Some((e, None)),
            None => None,
        },
    }
}

/// A sequential separator: `;` and a linebreak, or a newline list.
pub fn sequential_sep(s: &[char], pos: usize) -> (r: Option<usize>)
    requires
        pos <= s@.len(),
    ensures
        opt_pos(r) == spec_sequential_sep(s@, pos as int),
        r matches Some(e) ==> pos < e <= s@.len(),
{
    proof {
        lemma_separators(s@, pos as int);
    }
    reveal(spec_sequential_sep);
    if pos < s.len() && s[pos] == ';' {
        Some(linebreak(s, pos + 1))
    } else {
        newline_list(s, pos)
    }
}

} // verus!
