//! Redirections, assignment words (scalar, indexed and array assignments) and
//! command prefixes.

use vstd::prelude::*;
use crate::ast::{
    span, view_elements, view_opt_word, view_redirects, v_item, v_items, lemma_v_items_push,
    lemma_view_elements_push, lemma_view_redirects_push, Assignment, AssignmentName,
    AssignmentValue, CommandPrefix, CommandPrefixOrSuffixItem, IoFileRedirectKind, IoRedirect,
    RedirectList, SAssignment, SAssignmentName, SAssignmentValue, SIoRedirect, SItem, SWord,
    SourceSpan, Word,
};
use crate::char_parsers::{
    array_spaces, array_spaces_end, at, lemma_gap_end, lemma_run_end, lemma_spaces, run_end, spaces, spaces_end,
};
use crate::chars::{
    ascii_digit, is_ascii_digit, is_name_char, is_name_start, is_unicode_whitespace, is_whitespace,
    name_char, name_start, push_char, string_from_chars,
};
use crate::word_parsers::{
    lemma_word, lemma_word_parts_end, lemma_word_part, spec_word, spec_word_part, word_as_ast, word_part,
};

verus! {

/// A word with no location, as the assignment parser builds them.
pub open spec fn plain_word(t: Seq<char>) -> SWord {
    SWord { value: t, loc: None }
}

pub open spec fn spec_redirect_op(s: Seq<char>, q: int) -> Option<(int, IoFileRedirectKind)> {
    if at(s, q, '>') {
        if at(s, q + 1, '>') {
            Some((q + 2, IoFileRedirectKind::Append))
        } else if at(s, q + 1, '&') {
            Some((q + 2, IoFileRedirectKind::DuplicateOutput))
        } else if at(s, q + 1, '|') {
            Some((q + 2, IoFileRedirectKind::Clobber))
        } else if at(s, q + 1, '(') {
            None
        } else {
            Some((q + 1, IoFileRedirectKind::Write))
        }
    } else if at(s, q, '<') {
        if at(s, q + 1, '&') {
            Some((q + 2, IoFileRedirectKind::DuplicateInput))
        } else if at(s, q + 1, '>') {
            Some((q + 2, IoFileRedirectKind::ReadAndWrite))
        } else if at(s, q + 1, '<') || at(s, q + 1, '(') {
            None
        } else {
            Some((q + 1, IoFileRedirectKind::Read))
        }
    } else {
        None
    }
}

pub open spec fn digit_value(c: char) -> u32 {
    ((c as u32) - ('0' as u32)) as u32
}

/// A redirection: an optional digit naming the file descriptor, directly followed by
/// the operator, then optional spaces and the target word. `<<` (here-documents)
/// and `<(`/`>(` (process substitutions) are not redirections here.
#[verifier::opaque]
pub open spec fn spec_io_redirect(s: Seq<char>, p: int) -> Option<(int, SIoRedirect)> {
    let has_fd = 0 <= p && p + 1 < s.len() && is_ascii_digit(s[p]) && (s[p + 1] == '<' || s[p
        + 1] == '>');
    let q = if has_fd {
        p + 1
    } else {
        p
    };
    let fd = if has_fd {
        Some(digit_value(s[p]))
    } else {
        None
    };
    match spec_redirect_op(s, q) {
        Some((e, kind)) => match spec_word(s, spaces_end(s, e)) {
            Some((e2, w)) => Some((e2, SIoRedirect { fd, kind, target: w })),
            None => None,
        },
        None => None,
    }
}

pub proof fn lemma_io_redirect(s: Seq<char>, p: int)
    requires
        0 <= p <= s.len(),
    ensures
        spec_io_redirect(s, p) matches Some((e, _)) ==> p < e <= s.len(),
{
    reveal(spec_io_redirect);
    let has_fd = 0 <= p && p + 1 < s.len() && is_ascii_digit(s[p]) && (s[p + 1] == '<' || s[p
        + 1] == '>');
    let q = if has_fd {
        p + 1
    } else {
        p
    };
    if let Some((e, kind)) = spec_redirect_op(s, q) {
        lemma_spaces(s, e);
        lemma_word(s, spaces_end(s, e));
    }
}

/// More redirections after the first: each after optional spaces.
pub open spec fn redirects_rest(s: Seq<char>, cur: int, acc: Seq<SIoRedirect>) -> (int, Seq<SIoRedirect>)
    decreases s.len() - cur,
{
    if 0 <= cur <= s.len() {
        proof {
            lemma_spaces(s, cur);
            lemma_io_redirect(s, spaces_end(s, cur));
        }
        match spec_io_redirect(s, spaces_end(s, cur)) {
            Some((e, r)) => redirects_rest(s, e, acc.push(r)),
            None => (cur, acc),
        }
    } else {
        (cur, acc)
    }
}

#[verifier::opaque]
pub open spec fn spec_redirect_list(s: Seq<char>, p: int) -> Option<(int, Seq<SIoRedirect>)> {
    match spec_io_redirect(s, p) {
        Some((e, r)) => Some(redirects_rest(s, e, seq![r])),
        None => None,
    }
}

pub proof fn lemma_redirects_rest(s: Seq<char>, cur: int, acc: Seq<SIoRedirect>)
    requires
        0 <= cur <= s.len(),
    ensures
        cur <= redirects_rest(s, cur, acc).0 <= s.len(),
    decreases s.len() - cur,
{
    lemma_spaces(s, cur);
    lemma_io_redirect(s, spaces_end(s, cur));
    if let Some((e, r)) = spec_io_redirect(s, spaces_end(s, cur)) {
        lemma_redirects_rest(s, e, acc.push(r));
    }
}

/// The characters of an array element value: word parts up to `)` or whitespace.
pub open spec fn element_scan(s: Seq<char>, p: int) -> Option<int>
    decreases s.len() - p,
{
    if p < 0 || p >= s.len() || s[p] == ')' || is_unicode_whitespace(s[p]) {
        Some(p)
    } else {
        proof {
            lemma_word_part(s, p);
        }
        match spec_word_part(s, p) {
            Some(e) => element_scan(s, e),
            None => None,
        }
    }
}

pub open spec fn spec_array_element_value(s: Seq<char>, p: int) -> Option<int> {
    match element_scan(s, p) {
        Some(e) => if e > p {
            Some(e)
        } else {
            None
        },
        None => None,
    }
}

pub proof fn lemma_element_scan(s: Seq<char>, p: int)
    requires
        0 <= p <= s.len(),
    ensures
        element_scan(s, p) matches Some(e) ==> p <= e <= s.len(),
    decreases s.len() - p,
{
    if p < s.len() && s[p] != ')' && !is_unicode_whitespace(s[p]) {
        lemma_word_part(s, p);
        if let Some(e) = spec_word_part(s, p) {
            lemma_element_scan(s, e);
        }
    }
}

/// An array element after optional array whitespace: `[index]=value` (the value may
/// be empty) or a plain value.
pub open spec fn spec_array_element(s: Seq<char>, p: int) -> Option<(int, (Option<SWord>, SWord))> {
    let q = array_spaces_end(s, p);
    let ie = run_end(s, q + 1, |c: char| c != ']');
    if at(s, q, '[') && at(s, ie, ']') && at(s, ie + 1, '=') {
        let vs = ie + 2;
        let ve = match spec_array_element_value(s, vs) {
            Some(e) => e,
            None => vs,
        };
        Some((ve, (Some(plain_word(s.subrange(q + 1, ie))), plain_word(s.subrange(vs, ve)))))
    } else {
        match spec_array_element_value(s, q) {
            Some(e) => Some((e, (None, plain_word(s.subrange(q, e))))),
            None => None,
        }
    }
}

pub proof fn lemma_array_element(s: Seq<char>, p: int)
    requires
        0 <= p <= s.len(),
    ensures
        spec_array_element(s, p) matches Some((e, _)) ==> p < e <= s.len(),
{
    lemma_gap_end(s, p, true);
    let q = array_spaces_end(s, p);
    lemma_element_scan(s, q);
    if q < s.len() {
        lemma_run_end(s, q + 1, |c: char| c != ']');
        let ie = run_end(s, q + 1, |c: char| c != ']');
        if ie + 2 <= s.len() {
            lemma_element_scan(s, ie + 2);
        }
    }
}

/// The elements of an array literal after `(`, up to and including `)`.
pub open spec fn array_rest(s: Seq<char>, cur: int, acc: Seq<(Option<SWord>, SWord)>) -> Option<
    (int, Seq<(Option<SWord>, SWord)>),
>
    decreases s.len() - cur,
{
    if 0 <= cur <= s.len() {
        let q = array_spaces_end(s, cur);
        if at(s, q, ')') {
            Some((q + 1, acc))
        } else {
            proof {
                lemma_gap_end(s, cur, true);
                lemma_array_element(s, q);
            }
            match spec_array_element(s, q) {
                Some((e, el)) => array_rest(s, e, acc.push(el)),
                None => None,
            }
        }
    } else {
        None
    }
}

pub proof fn lemma_array_rest(s: Seq<char>, cur: int, acc: Seq<(Option<SWord>, SWord)>)
    requires
        0 <= cur <= s.len(),
    ensures
        array_rest(s, cur, acc) matches Some((e, _)) ==> cur < e <= s.len(),
    decreases s.len() - cur,
{
    lemma_gap_end(s, cur, true);
    let q = array_spaces_end(s, cur);
    if !at(s, q, ')') {
        lemma_array_element(s, q);
        if let Some((e, el)) = spec_array_element(s, q) {
            lemma_array_rest(s, e, acc.push(el));
        }
    }
}

/// How an element of an array literal is written back: `[index]=value` or `value`.
pub open spec fn element_text(el: (Option<SWord>, SWord)) -> Seq<char> {
    match el.0 {
        Some(i) => seq!['['] + i.value + seq![']', '='] + el.1.value,
        None => el.1.value,
    }
}

/// The elements written back, separated by single spaces.
pub open spec fn elements_text(els: Seq<(Option<SWord>, SWord)>) -> Seq<char>
    decreases els.len(),
{
    if els.len() == 0 {
        Seq::empty()
    } else if els.len() == 1 {
        element_text(els[0])
    } else {
        elements_text(els.drop_last()) + seq![' '] + element_text(els.last())
    }
}

pub open spec fn assign_op_text(append: bool) -> Seq<char> {
    if append {
        seq!['+', '=']
    } else {
        seq!['=']
    }
}

/// Index text of `name[index]` at `ne` (where the name ends): `Some(Some(..))` with the
/// index, `Some(None)` where no `[` follows, `None` where `[` is not closed properly.
pub open spec fn index_part(s: Seq<char>, ne: int) -> Option<(int, Option<Seq<char>>)> {
    if at(s, ne, '[') {
        let ie = run_end(s, ne + 1, |c: char| c != ']');
        if ie > ne + 1 && at(s, ie, ']') {
            Some((ie + 1, Some(s.subrange(ne + 1, ie))))
        } else {
            None
        }
    } else {
        Some((ne, None))
    }
}

/// An assignment word: a name (letter or `_`, then letters, digits, `_`), an optional
/// `[index]`, an optional `+`, `=`, then either an array literal `( ... )` or an
/// optional word. Answers the assignment and the word as written back.
pub open spec fn spec_assignment_word(s: Seq<char>, p: int) -> Option<(int, (SAssignment, SWord))> {
    if 0 <= p < s.len() && is_name_start(s[p]) {
        let ne = run_end(s, p + 1, |c: char| is_name_char(c));
        let name = s.subrange(p, ne);
        match index_part(s, ne) {
            None => None,
            Some((ai, idx)) => {
                let append = at(s, ai, '+');
                let eq = if append {
                    ai + 1
                } else {
                    ai
                };
                if !at(s, eq, '=') {
                    None
                } else if at(s, eq + 1, '(') {
                    spec_assign_array(s, p, ne, eq, append)
                } else {
                    spec_assign_scalar(s, p, ne, idx, eq, append)
                }
            },
        }
    } else {
        None
    }
}

/// The array form `name=( elements )`, the `(` at `eq + 1`.
pub open spec fn spec_assign_array(s: Seq<char>, p: int, ne: int, eq: int, append: bool) -> Option<
    (int, (SAssignment, SWord)),
> {
    let name = s.subrange(p, ne);
    match array_rest(s, eq + 2, Seq::empty()) {
        Some((e, els)) => Some(
            (
                e,
                (
                    SAssignment {
                        name: SAssignmentName::VariableName(name),
                        value: SAssignmentValue::Array(els),
                        append,
                        loc: span(p, e),
                    },
                    plain_word(
                        name + assign_op_text(append) + seq!['('] + elements_text(els) + seq![')'],
                    ),
                ),
            ),
        ),
        None => None,
    }
}

/// The scalar form `name[=index]=word`, the word (possibly empty) after `eq`.
pub open spec fn spec_assign_scalar(
    s: Seq<char>,
    p: int,
    ne: int,
    idx: Option<Seq<char>>,
    eq: int,
    append: bool,
) -> Option<(int, (SAssignment, SWord))> {
    let name = s.subrange(p, ne);
    let e = match spec_word(s, eq + 1) {
        Some((e, w)) => e,
        None => eq + 1,
    };
    let value = s.subrange(eq + 1, e);
    let idx_text = match idx {
        Some(i) => seq!['['] + i + seq![']'],
        None => Seq::empty(),
    };
    Some(
        (
            e,
            (
                SAssignment {
                    name: match idx {
                        Some(i) => SAssignmentName::ArrayElementName(name, i),
                        None => SAssignmentName::VariableName(name),
                    },
                    value: SAssignmentValue::Scalar(plain_word(value)),
                    append,
                    loc: span(p, e),
                },
                plain_word(name + idx_text + assign_op_text(append) + value),
            ),
        ),
    )
}

pub proof fn lemma_assignment_word(s: Seq<char>, p: int)
    requires
        0 <= p <= s.len(),
    ensures
        spec_assignment_word(s, p) matches Some((e, _)) ==> p < e <= s.len(),
{
    if 0 <= p < s.len() && is_name_start(s[p]) {
        lemma_run_end(s, p + 1, |c: char| is_name_char(c));
        let ne = run_end(s, p + 1, |c: char| is_name_char(c));
        if ne < s.len() {
            lemma_run_end(s, ne + 1, |c: char| c != ']');
        }
        if let Some((ai, idx)) = index_part(s, ne) {
            let append = at(s, ai, '+');
            let eq = if append {
                ai + 1
            } else {
                ai
            };
            if at(s, eq, '=') {
                if at(s, eq + 1, '(') {
                    lemma_array_rest(s, eq + 2, Seq::empty());
                } else {
                    lemma_word(s, eq + 1);
                }
            }
        }
    }
}

/// An item of a command prefix: a redirection or an assignment word.
pub open spec fn spec_prefix_item(s: Seq<char>, p: int) -> Option<(int, SItem)> {
    match spec_io_redirect(s, p) {
        Some((e, r)) => Some((e, SItem::IoRedirect(r))),
        None => match spec_assignment_word(s, p) {
            Some((e, (a, w))) => Some((e, SItem::AssignmentWord(a, w))),
            None => None,
        },
    }
}

pub open spec fn prefix_rest(s: Seq<char>, cur: int, acc: Seq<SItem>) -> (int, Seq<SItem>)
    decreases s.len() - cur,
{
    if 0 <= cur <= s.len() {
        proof {
            lemma_io_redirect(s, cur);
            lemma_assignment_word(s, cur);
        }
        match spec_prefix_item(s, cur) {
            Some((e, it)) => {
                proof {
                    lemma_spaces(s, e);
                }
                prefix_rest(s, spaces_end(s, e), acc.push(it))
            },
            None => (cur, acc),
        }
    } else {
        (cur, acc)
    }
}

/// One or more prefix items, each followed by optional spaces.
#[verifier::opaque]
pub open spec fn spec_cmd_prefix(s: Seq<char>, p: int) -> Option<(int, Seq<SItem>)> {
    match spec_prefix_item(s, p) {
        Some((e, it)) => Some(prefix_rest(s, spaces_end(s, e), seq![it])),
        None => None,
    }
}

pub proof fn lemma_prefix_rest(s: Seq<char>, cur: int, acc: Seq<SItem>)
    requires
        0 <= cur <= s.len(),
    ensures
        cur <= prefix_rest(s, cur, acc).0 <= s.len(),
    decreases s.len() - cur,
{
    lemma_io_redirect(s, cur);
    lemma_assignment_word(s, cur);
    if let Some((e, it)) = spec_prefix_item(s, cur) {
        lemma_spaces(s, e);
        lemma_prefix_rest(s, spaces_end(s, e), acc.push(it));
    }
}

pub proof fn lemma_cmd_prefix(s: Seq<char>, p: int)
    requires
        0 <= p <= s.len(),
    ensures
        spec_cmd_prefix(s, p) matches Some((e, _)) ==> p < e <= s.len(),
        spec_redirect_list(s, p) matches Some((e, _)) ==> p < e <= s.len(),
{
    reveal(spec_cmd_prefix);
    reveal(spec_redirect_list);
    lemma_io_redirect(s, p);
    lemma_assignment_word(s, p);
    if let Some((e, it)) = spec_prefix_item(s, p) {
        lemma_spaces(s, e);
        lemma_prefix_rest(s, spaces_end(s, e), seq![it]);
    }
    if let Some((e, r)) = spec_io_redirect(s, p) {
        lemma_redirects_rest(s, e, seq![r]);
    }
}

// ---------------------------------------------------------------- exec

/// Appends `s[a..b]` to `buf`.
fn append_range(buf: &mut Vec<char>, s: &[char], a: usize, b: usize)
    requires
        a <= b <= s@.len(),
    ensures
        final(buf)@ == old(buf)@ + s@.subrange(a as int, b as int),
{
    let mut i = a;
    while i < b
        invariant
            a <= i <= b <= s@.len(),
            buf@ == old(buf)@ + s@.subrange(a as int, i as int),
        decreases b - i,
    {
        buf.push(s[i]);
        assert(s@.subrange(a as int, i + 1) =~= s@.subrange(a as int, i as int).push(s@[i as int]));
        assert(buf@ =~= old(buf)@ + s@.subrange(a as int, i + 1));
        i = i + 1;
    }
}

fn redirect_op(s: &[char], q: usize) -> (r: Option<(usize, IoFileRedirectKind)>)
    requires
        q <= s@.len(),
    ensures
        r matches Some((e, k)) ==> spec_redirect_op(s@, q as int) == Some((e as int, k)),
        r is None ==> spec_redirect_op(s@, q as int) is None,
{
    let n = s.len();
    let next = if q < n && n - q > 1 {
        Some(s[q + 1])
    } else {
        None
    };
    if q < n && s[q] == '>' {
        if next == Some('>') {
            Some((q + 2, IoFileRedirectKind::Append))
        } else if next == Some('&') {
            Some((q + 2, IoFileRedirectKind::DuplicateOutput))
        } else if next == Some('|') {
            Some((q + 2, IoFileRedirectKind::Clobber))
        } else if next == Some('(') {
            None
        } else {
            Some((q + 1, IoFileRedirectKind::Write))
        }
    } else if q < n && s[q] == '<' {
        if next == Some('&') {
            Some((q + 2, IoFileRedirectKind::DuplicateInput))
        } else if next == Some('>') {
            Some((q + 2, IoFileRedirectKind::ReadAndWrite))
        } else if next == Some('<') || next == Some('(') {
            None
        } else {
            Some((q + 1, IoFileRedirectKind::Read))
        }
    } else {
        None
    }
}

/// A redirection such as `>out`, `2>>log`, `<&0` or `>| file`.
pub fn io_redirect(s: &[char], pos: usize) -> (r: Option<(usize, IoRedirect)>)
    requires
        pos <= s@.len(),
    ensures
        r matches Some((e, x)) ==> spec_io_redirect(s@, pos as int) == Some((e as int, x@)),
        r is None ==> spec_io_redirect(s@, pos as int) is None,
        r matches Some((e, x)) ==> pos < e <= s@.len(),
{
    proof {
        reveal(spec_io_redirect);
        lemma_io_redirect(s@, pos as int);
    }
    let n = s.len();
    let has_fd = pos < n && n - pos > 1 && ascii_digit(s[pos]) && (s[pos + 1] == '<' || s[pos + 1] == '>');
    let q = if has_fd {
        pos + 1
    } else {
        pos
    };
    let fd = if has_fd {
        Some((s[pos] as u32) - ('0' as u32))
    } else {
        None
    };
    match redirect_op(s, q) {
        Some((e, kind)) => {
            let t = spaces(s, e);
            match word_as_ast(s, t) {
                Some((e2, w)) => Some((e2, IoRedirect { fd, kind, target: w })),
                None => None,
            }
        },
        None => None,
    }
}

/// One or more redirections separated by optional spaces.
pub fn redirect_list(s: &[char], pos: usize) -> (r: Option<(usize, RedirectList)>)
    requires
        pos <= s@.len(),
    ensures
        r matches Some((e, x)) ==> spec_redirect_list(s@, pos as int) == Some(
            (e as int, view_redirects(x.0@)),
        ),
        r is None ==> spec_redirect_list(s@, pos as int) is None,
        r matches Some((e, x)) ==> pos < e <= s@.len(),
{
    proof {
        reveal(spec_redirect_list);
        lemma_cmd_prefix(s@, pos as int);
    }
    let (e, first) = match io_redirect(s, pos) {
        Some(x) => x,
        None => {
            return None;
        },
    };
    let mut items: Vec<IoRedirect> = Vec::new();
    items.push(first);
    proof {
        assert(view_redirects(items@) =~= seq![first@]);
    }
    let mut cur = e;
    loop
        invariant
            pos < cur <= s@.len(),
            redirects_rest(s@, cur as int, view_redirects(items@)) == spec_redirect_list(
                s@,
                pos as int,
            ).unwrap(),
            spec_redirect_list(s@, pos as int) is Some,
        decreases s@.len() - cur,
    {
        let q = spaces(s, cur);
        match io_redirect(s, q) {
            Some((e2, r)) => {
                proof {
                    lemma_view_redirects_push(items@, r);
                }
                items.push(r);
                cur = e2;
            },
            None => {
                return Some((cur, RedirectList(items)));
            },
        }
    }
}

/// The value of an array element: word parts up to `)` or unquoted whitespace;
/// answers its end.
pub fn array_element_value(s: &[char], pos: usize) -> (r: Option<usize>)
    requires
        pos <= s@.len(),
    ensures
        r matches Some(e) ==> spec_array_element_value(s@, pos as int) == Some(e as int),
        r is None ==> spec_array_element_value(s@, pos as int) is None,
        r matches Some(e) ==> pos < e <= s@.len(),
{
    proof {
        lemma_element_scan(s@, pos as int);
    }
    let mut i = pos;
    while i < s.len() && s[i] != ')' && !is_whitespace(s[i])
        invariant
            pos <= i <= s@.len(),
            element_scan(s@, i as int) == element_scan(s@, pos as int),
        decreases s@.len() - i,
    {
        match word_part(s, i) {
            Some(e) => {
                i = e;
            },
            None => {
                return None;
            },
        }
    }
    if i > pos {
        Some(i)
    } else {
        None
    }
}

/// An array element: `[index]=value` or `value`, after optional array whitespace.
pub fn array_element(s: &[char], pos: usize) -> (r: Option<(usize, (Option<Word>, Word))>)
    requires
        pos <= s@.len(),
    ensures
        r matches Some((e, el)) ==> spec_array_element(s@, pos as int) == Some(
            (e as int, (view_opt_word(el.0), el.1@)),
        ),
        r is None ==> spec_array_element(s@, pos as int) is None,
        r matches Some((e, el)) ==> pos < e <= s@.len(),
{
    proof {
        lemma_array_element(s@, pos as int);
    }
    let q = array_spaces(s, pos);
    let n = s.len();
    if q < n && s[q] == '[' {
        let mut ie = q + 1;
        while ie < n && s[ie] != ']'
            invariant
                q < ie <= n == s@.len(),
                run_end(s@, ie as int, |c: char| c != ']') == run_end(
                    s@,
                    q + 1,
                    |c: char| c != ']',
                ),
            decreases n - ie,
        {
            ie = ie + 1;
        }
        if ie < n && ie + 1 < n && s[ie + 1] == '=' {
            let vs = ie + 2;
            let ve = match array_element_value(s, vs) {
                Some(e) => e,
                None => vs,
            };
            let index = Word { value: string_from_chars(s, q + 1, ie), loc: None };
            let value = Word { value: string_from_chars(s, vs, ve), loc: None };
            return Some((ve, (Some(index), value)));
        }
    }
    match array_element_value(s, q) {
        Some(e) => Some((e, (None, Word { value: string_from_chars(s, q, e), loc: None }))),
        None => None,
    }
}

fn index_part_exec(s: &[char], ne: usize) -> (r: Option<(usize, Option<(usize, usize)>)>)
    requires
        ne <= s@.len(),
    ensures
        r matches Some((ai, None)) ==> index_part(s@, ne as int) == Some((ai as int, None::<Seq<char>>)),
        r matches Some((ai, Some((a, b)))) ==> a <= b <= s@.len() && index_part(s@, ne as int)
            == Some((ai as int, Some(s@.subrange(a as int, b as int)))),
        r is None ==> index_part(s@, ne as int) is None,
        r matches Some((ai, _)) ==> ne <= ai <= s@.len(),
{
    let n = s.len();
    if ne < n && s[ne] == '[' {
        let mut ie = ne + 1;
        while ie < n && s[ie] != ']'
            invariant
                ne < ie <= n == s@.len(),
                run_end(s@, ie as int, |c: char| c != ']') == run_end(
                    s@,
                    ne + 1,
                    |c: char| c != ']',
                ),
            decreases n - ie,
        {
            ie = ie + 1;
        }
        if ie > ne + 1 && ie < n {
            Some((ie + 1, Some((ne + 1, ie))))
        } else {
            None
        }
    } else {
        Some((ne, None))
    }
}

/// The elements of an array literal from `start` (after its `(`) up to and including
/// the `)`; their text, written back, is appended to `full`.
fn array_literal(s: &[char], start: usize, full: &mut Vec<char>) -> (r: Option<(usize, Vec<(Option<Word>, Word)>)>)
    requires
        start <= s@.len(),
    ensures
        r matches Some((e, els)) ==> array_rest(s@, start as int, Seq::empty()) == Some(
            (e as int, view_elements(els@)),
        ) && final(full)@ == old(full)@ + elements_text(view_elements(els@)) && start < e <= s@.len(),
        r is None ==> array_rest(s@, start as int, Seq::empty()) is None,
{
    let n = s.len();
    let ghost prefix_text = full@;
    let mut elements: Vec<(Option<Word>, Word)> = Vec::new();
    let mut cur = start;
    proof {
        assert(view_elements(elements@) =~= Seq::<(Option<SWord>, SWord)>::empty());
        assert(elements_text(view_elements(elements@)) =~= Seq::<char>::empty());
        assert(full@ =~= prefix_text + elements_text(view_elements(elements@)));
    }
    loop
        invariant
            start <= cur <= s@.len(),
            n == s@.len(),
            prefix_text == old(full)@,
            array_rest(s@, cur as int, view_elements(elements@)) == array_rest(
                s@,
                start as int,
                Seq::empty(),
            ),
            full@ == prefix_text + elements_text(view_elements(elements@)),
        decreases s@.len() - cur,
    {
        let q = array_spaces(s, cur);
        if q < n && s[q] == ')' {
            proof {
                lemma_array_rest(s@, start as int, Seq::empty());
            }
            return Some((q + 1, elements));
        }
        proof {
            lemma_array_element(s@, q as int);
        }
        match array_element(s, q) {
            Some((e, el)) => {
                let ghost old_els = view_elements(elements@);
                if elements.len() > 0 {
                    full.push(' ');
                }
                match &el.0 {
                    Some(index) => {
                        full.push('[');
                        push_string(full, &index.value);
                        push_chars2(full, ']', '=');
                    },
                    None => {},
                }
                push_string(full, &el.1.value);
                proof {
                    lemma_view_elements_push(elements@, el);
                    let new_els = old_els.push((view_opt_word(el.0), el.1@));
                    assert(new_els.drop_last() =~= old_els);
                    assert(new_els.last() == (view_opt_word(el.0), el.1@));
                    if old_els.len() == 0 {
                        assert(elements_text(old_els) =~= Seq::<char>::empty());
                        assert(full@ =~= prefix_text + elements_text(new_els));
                    } else {
                        assert(full@ =~= prefix_text + elements_text(new_els));
                    }
                }
                elements.push(el);
                cur = e;
            },
            None => {
                return None;
            },
        }
    }
}

/// An assignment word `name=value`, `name+=value`, `name[i]=value` or
/// `name=( elements )`, with the word as written back.
pub fn assignment_word(s: &[char], pos: usize) -> (r: Option<(usize, (Assignment, Word))>)
    requires
        pos <= s@.len(),
    ensures
        r matches Some((e, (a, w))) ==> spec_assignment_word(s@, pos as int) == Some(
            (e as int, (a@, w@)),
        ),
        r is None ==> spec_assignment_word(s@, pos as int) is None,
        r matches Some((e, _)) ==> pos < e <= s@.len(),
{
    proof {
        lemma_assignment_word(s@, pos as int);
    }
    let n = s.len();
    if !(pos < n && name_start(s[pos])) {
        return None;
    }
    let mut ne = pos + 1;
    while ne < n && name_char(s[ne])
        invariant
            pos < ne <= n == s@.len(),
            run_end(s@, ne as int, |c: char| is_name_char(c)) == run_end(
                s@,
                pos + 1,
                |c: char| is_name_char(c),
            ),
        decreases n - ne,
    {
        ne = ne + 1;
    }
    let (ai, idx) = match index_part_exec(s, ne) {
        Some(x) => x,
        None => {
            return None;
        },
    };
    let append = ai < n && s[ai] == '+';
    let eq = if append {
        ai + 1
    } else {
        ai
    };
    if !(eq < n && s[eq] == '=') {
        return None;
    }
    if eq + 1 < n && s[eq + 1] == '(' {
        assign_array(s, pos, ne, eq, append)
    } else {
        assign_scalar(s, pos, ne, idx, eq, append)
    }
}

fn assign_array(s: &[char], pos: usize, ne: usize, eq: usize, append: bool) -> (r: Option<
    (usize, (Assignment, Word)),
>)
    requires
        pos < ne <= eq < s@.len(),
        s@[eq + 1] == '(',
        eq + 1 < s@.len(),
    ensures
        r matches Some((e, (a, w))) ==> spec_assign_array(s@, pos as int, ne as int, eq as int, append)
            == Some((e as int, (a@, w@))) && pos < e <= s@.len(),
        r is None ==> spec_assign_array(s@, pos as int, ne as int, eq as int, append) is None,
{
    let n = s.len();
    let name = string_from_chars(s, pos, ne);
    let mut full: Vec<char> = Vec::new();
    append_range(&mut full, s, pos, ne);
    if append {
        push_chars2(&mut full, '+', '=');
    } else {
        full.push('=');
    }
    full.push('(');
    let ghost prefix_text = full@;
    match array_literal(s, eq + 2, &mut full) {
        Some((e, elements)) => {
            full.push(')');
            proof {
                assert(full@ =~= s@.subrange(pos as int, ne as int) + assign_op_text(append)
                    + seq!['('] + elements_text(view_elements(elements@)) + seq![')']);
                assert(full@.subrange(0, full@.len() as int) =~= full@);
            }
            let word = Word { value: string_from_chars(full.as_slice(), 0, full.len()), loc: None };
            let assignment = Assignment {
                name: AssignmentName::VariableName(name),
                value: AssignmentValue::Array(elements),
                append,
                loc: SourceSpan { start: pos, end: e },
            };
            Some((e, (assignment, word)))
        },
        None => None,
    }
}

fn assign_scalar(
    s: &[char],
    pos: usize,
    ne: usize,
    idx: Option<(usize, usize)>,
    eq: usize,
    append: bool,
) -> (r: Option<(usize, (Assignment, Word))>)
    requires
        pos < ne <= eq < s@.len(),
        idx matches Some((a, b)) ==> a <= b <= s@.len(),
    ensures
        r matches Some((e, (a, w))) ==> spec_assign_scalar(
            s@,
            pos as int,
            ne as int,
            match idx {
                Some((a, b)) => Some(s@.subrange(a as int, b as int)),
                None => None,
            },
            eq as int,
            append,
        ) == Some((e as int, (a@, w@))) && pos < e <= s@.len(),
        r is Some,
{
    proof {
        lemma_word_parts_end(s@, eq + 1);
    }
    let n = s.len();
    let name = string_from_chars(s, pos, ne);
    let mut full: Vec<char> = Vec::new();
    append_range(&mut full, s, pos, ne);
    let e = match word_as_ast(s, eq + 1) {
        Some((e, w)) => e,
        None => eq + 1,
    };
    let ghost idx_text = match idx {
        Some((a, b)) => seq!['['] + s@.subrange(a as int, b as int) + seq![']'],
        None => Seq::empty(),
    };
    match idx {
        Some((a, b)) => {
            full.push('[');
            append_range(&mut full, s, a, b);
            full.push(']');
        },
        None => {},
    }
    if append {
        push_chars2(&mut full, '+', '=');
    } else {
        full.push('=');
    }
    append_range(&mut full, s, eq + 1, e);
    proof {
        assert(full@ =~= s@.subrange(pos as int, ne as int) + idx_text + assign_op_text(append)
            + s@.subrange(eq + 1, e as int));
        assert(full@.subrange(0, full@.len() as int) =~= full@);
    }
    let word = Word { value: string_from_chars(full.as_slice(), 0, full.len()), loc: None };
    let value = Word { value: string_from_chars(s, eq + 1, e), loc: None };
    let aname = match idx {
        Some((a, b)) => AssignmentName::ArrayElementName(name, string_from_chars(s, a, b)),
        None => AssignmentName::VariableName(name),
    };
    let assignment = Assignment {
        name: aname,
        value: AssignmentValue::Scalar(value),
        append,
        loc: SourceSpan { start: pos, end: e },
    };
    Some((e, (assignment, word)))
}

fn push_chars2(buf: &mut Vec<char>, a: char, b: char)
    ensures
        final(buf)@ == old(buf)@ + seq![a, b],
{
    buf.push(a);
    buf.push(b);
    assert(buf@ =~= old(buf)@ + seq![a, b]);
}

/// Appends the characters of `t` to `buf`.
fn push_string(buf: &mut Vec<char>, t: &String)
    ensures
        final(buf)@ == old(buf)@ + t@,
{
    let cs = crate::chars::chars_of(t.as_str());
    let mut i: usize = 0;
    while i < cs.len()
        invariant
            i <= cs@.len(),
            cs@ == t@,
            buf@ == old(buf)@ + cs@.subrange(0, i as int),
        decreases cs@.len() - i,
    {
        buf.push(cs[i]);
        assert(cs@.subrange(0, i + 1) =~= cs@.subrange(0, i as int).push(cs@[i as int]));
        assert(buf@ =~= old(buf)@ + cs@.subrange(0, i + 1));
        i = i + 1;
    }
    assert(cs@.subrange(0, cs@.len() as int) =~= cs@);
}

fn prefix_item(s: &[char], pos: usize) -> (r: Option<(usize, CommandPrefixOrSuffixItem)>)
    requires
        pos <= s@.len(),
    ensures
        r matches Some((e, it)) ==> spec_prefix_item(s@, pos as int) == Some((e as int, v_item(it))),
        r is None ==> spec_prefix_item(s@, pos as int) is None,
        r matches Some((e, _)) ==> pos < e <= s@.len(),
{
    match io_redirect(s, pos) {
        Some((e, r)) => Some((e, CommandPrefixOrSuffixItem::IoRedirect(r))),
        None => match assignment_word(s, pos) {
            Some((e, (a, w))) => Some((e, CommandPrefixOrSuffixItem::AssignmentWord(a, w))),
            None => None,
        },
    }
}

/// A command prefix: one or more redirections or assignment words, each followed by
/// optional spaces.
pub fn cmd_prefix(s: &[char], pos: usize) -> (r: Option<(usize, CommandPrefix)>)
    requires
        pos <= s@.len(),
    ensures
        r matches Some((e, x)) ==> spec_cmd_prefix(s@, pos as int) == Some((e as int, v_items(x.0@))),
        r is None ==> spec_cmd_prefix(s@, pos as int) is None,
        r matches Some((e, x)) ==> pos < e <= s@.len(),
{
    proof {
        reveal(spec_cmd_prefix);
        lemma_cmd_prefix(s@, pos as int);
    }
    let (e, first) = match prefix_item(s, pos) {
        Some(x) => x,
        None => {
            return None;
        },
    };
    let mut items: Vec<CommandPrefixOrSuffixItem> = Vec::new();
    proof {
        lemma_v_items_push(items@, first);
    }
    items.push(first);
    let mut cur = spaces(s, e);
    loop
        invariant
            pos < cur <= s@.len(),
            spec_cmd_prefix(s@, pos as int) is Some,
            prefix_rest(s@, cur as int, v_items(items@)) == spec_cmd_prefix(s@, pos as int).unwrap(),
        decreases s@.len() - cur,
    {
        match prefix_item(s, cur) {
            Some((e2, it)) => {
                proof {
                    lemma_v_items_push(items@, it);
                }
                items.push(it);
                cur = spaces(s, e2);
            },
            None => {
                return Some((cur, CommandPrefix(items)));
            },
        }
    }
}

} // verus!
