//! Properties of the scanners and parsers that hold for every input.

use vstd::prelude::*;
use crate::arith::{is_shell_op_char, norm_fold, spec_normalize, trim, trim_back, trim_front};
use crate::ast::{span, SCompoundCommand};
use crate::char_parsers::{
    at, balanced_scan, blank_run_end, comment_end, gap_end, lemma_balanced_scan, lemma_gap_end, lemma_run_end,
    lit_at, not_newline, run_end, spaces_end, spec_balanced, spec_comment,
};
use crate::chars::{is_blank, is_unicode_whitespace, is_word_char};
use crate::command_parsers::{
    assign_op_text, index_part, spec_assign_scalar, spec_assignment_word,
};
use crate::extended_test_parsers::{ext_step, ext_word_rest, lemma_ext_step, SWordStep};
use crate::grammar::{
    spec_paren_compound,
    ParserOptions,
};
use crate::line_parsers::{
    lemma_line_step, line_step, linebreak_end, linebreak_scan, spec_newline_list,
};
use crate::program_parsers::spec_program;
use crate::arith::spec_arithmetic_command;
use crate::word_parsers::{spec_bare_word, spec_word, word_at};
use crate::chars::is_name_char;

verus! {

/// A bare word is the longest run of word characters: every character it takes is a
/// word character, and the character after it (if any) is not.
pub proof fn law_bare_word_is_maximal(s: Seq<char>, p: int)
    requires
        0 <= p <= s.len(),
    ensures
        spec_bare_word(s, p) matches Some(e) ==> p < e <= s.len() && (forall|i: int|
            p <= i < e ==> is_word_char(#[trigger] s[i])) && (e == s.len() || !is_word_char(s[e])),
        spec_bare_word(s, p) is None ==> p == s.len() || !is_word_char(s[p]),
{
    let f = |c: char| is_word_char(c);
    lemma_run_end(s, p, f);
    let e = run_end(s, p, f);
    assert forall|i: int| p <= i < e implies is_word_char(#[trigger] s[i]) by {
        assert(f(s[i]));
    }
}

proof fn lemma_gap_idempotent(s: Seq<char>, p: int, nl: bool)
    requires
        0 <= p <= s.len(),
    ensures
        gap_end(s, gap_end(s, p, nl), nl) == gap_end(s, p, nl),
    decreases s.len() - p,
{
    if p < s.len() {
        if crate::chars::is_blank(s[p]) || (nl && s[p] == '\n') {
            lemma_gap_idempotent(s, p + 1, nl);
        } else if s[p] == '\\' && p + 1 < s.len() && s[p + 1] == '\n' {
            lemma_gap_idempotent(s, p + 2, nl);
        } else if s[p] == '#' {
            lemma_run_end(s, p + 1, |c: char| not_newline(c));
            lemma_gap_idempotent(s, comment_end(s, p), nl);
        }
    }
}

/// Skipping spaces twice is skipping them once; and spaces never take a newline that
/// is not escaped by a backslash.
pub proof fn law_spaces(s: Seq<char>, p: int)
    requires
        0 <= p <= s.len(),
    ensures
        spaces_end(s, spaces_end(s, p)) == spaces_end(s, p),
        at(s, p, '\n') ==> spaces_end(s, p) == p,
{
    reveal(spaces_end);
    lemma_gap_idempotent(s, p, false);
}

/// A comment runs to the end of its line: it takes no newline, and it ends at a
/// newline or at the end of the text.
pub proof fn law_comment_ends_at_newline(s: Seq<char>, p: int)
    requires
        0 <= p <= s.len(),
    ensures
        spec_comment(s, p) matches Some(e) ==> p < e <= s.len() && (e == s.len() || s[e] == '\n')
            && forall|i: int| p < i < e ==> #[trigger] s[i] != '\n',
{
    if at(s, p, '#') {
        let f = |c: char| not_newline(c);
        lemma_run_end(s, p + 1, f);
        let e = comment_end(s, p);
        assert(e == run_end(s, p + 1, f));
        assert forall|i: int| p < i < e implies #[trigger] s[i] != '\n' by {
            assert(f(s[i]));
        }
    }
}

proof fn lemma_balanced_last(s: Seq<char>, p: int, open: Option<char>, close: char, depth: nat)
    requires
        0 <= p <= s.len(),
        depth > 0,
    ensures
        balanced_scan(s, p, open, close, depth) matches Some(e) ==> p < e <= s.len() && s[e - 1]
            == close,
    decreases s.len() - p,
{
    if p < s.len() {
        if open == Some(s[p]) {
            lemma_balanced_last(s, p + 1, open, close, depth + 1);
        } else if s[p] == close {
            if depth > 1 {
                lemma_balanced_last(s, p + 1, open, close, (depth - 1) as nat);
            }
        } else if s[p] == '\\' && p + 1 < s.len() {
            lemma_balanced_last(s, p + 2, open, close, depth);
        } else {
            lemma_balanced_last(s, p + 1, open, close, depth);
        }
    }
}

/// Balanced content is returned whole: it starts with the prefix and, where a closer
/// was owed, ends with the closing delimiter.
pub proof fn law_balanced_delimiters(
    s: Seq<char>,
    p: int,
    prefix: Seq<char>,
    open: Option<char>,
    close: char,
    depth: nat,
)
    requires
        0 <= p <= s.len(),
    ensures
        spec_balanced(s, p, prefix, open, close, depth) matches Some(e) ==> lit_at(s, p, prefix)
            && p + prefix.len() <= e <= s.len() && (depth > 0 ==> s[e - 1] == close),
{
    if lit_at(s, p, prefix) {
        lemma_balanced_scan(s, p + prefix.len(), open, close, depth);
        if depth > 0 {
            lemma_balanced_last(s, p + prefix.len(), open, close, depth);
        }
    }
}

/// A character that is neither whitespace nor a shell operator.
pub open spec fn is_arith_word_char(c: char) -> bool {
    !is_unicode_whitespace(c) && !is_shell_op_char(c)
}

/// The only whitespace of a normalised expression is single spaces, each between two
/// characters that are neither whitespace nor operators.
pub open spec fn is_normalized(r: Seq<char>) -> bool {
    forall|k: int|
        0 <= k < r.len() && is_unicode_whitespace(#[trigger] r[k]) ==> r[k] == ' ' && 0 < k && k
            + 1 < r.len() && is_arith_word_char(r[k - 1]) && is_arith_word_char(r[k + 1])
}

proof fn lemma_norm_fold_shape(t: Seq<char>, i: int, lw: bool, pend: bool)
    requires
        0 <= i <= t.len(),
    ensures
        ({
            let r = norm_fold(t, i, lw, pend);
            &&& forall|k: int|
                0 <= k < r.len() && is_unicode_whitespace(#[trigger] r[k]) ==> r[k] == ' ' && k + 1
                    < r.len() && is_arith_word_char(r[k + 1]) && (k > 0 ==> is_arith_word_char(
                    r[k - 1],
                ))
            &&& r.len() > 0 && is_unicode_whitespace(r[0]) ==> lw
        }),
    decreases t.len() - i,
{
    if i < t.len() {
        let c = t[i];
        if is_unicode_whitespace(c) {
            lemma_norm_fold_shape(t, i + 1, lw, true);
            assert(norm_fold(t, i, lw, pend) == norm_fold(t, i + 1, lw, true));
        } else if is_shell_op_char(c) {
            lemma_norm_fold_shape(t, i + 1, false, false);
            let rest = norm_fold(t, i + 1, false, false);
            let r = norm_fold(t, i, lw, pend);
            assert(r == seq![c] + rest);
            assert(r[0] == c);
            assert forall|k: int| 0 <= k < r.len() && is_unicode_whitespace(#[trigger] r[k]) implies r[k]
                == ' ' && k + 1 < r.len() && is_arith_word_char(r[k + 1]) && (k > 0
                ==> is_arith_word_char(r[k - 1])) by {
                assert(k > 0);
                assert(r[k] == rest[k - 1]);
                assert(r[k + 1] == rest[k]);
                if k > 1 {
                    assert(r[k - 1] == rest[k - 2]);
                }
            }
        } else {
            lemma_norm_fold_shape(t, i + 1, true, false);
            let rest = norm_fold(t, i + 1, true, false);
            let sp: Seq<char> = if pend && lw {
                seq![' ']
            } else {
                Seq::empty()
            };
            let r = norm_fold(t, i, lw, pend);
            assert(r == sp + seq![c] + rest);
            let m = sp.len() + 1;
            assert forall|k: int| 0 <= k < r.len() && is_unicode_whitespace(#[trigger] r[k]) implies r[k]
                == ' ' && k + 1 < r.len() && is_arith_word_char(r[k + 1]) && (k > 0
                ==> is_arith_word_char(r[k - 1])) by {
                if k < sp.len() {
                    assert(r[k] == ' ');
                    assert(r[k + 1] == c);
                } else if k == sp.len() {
                    assert(r[k] == c);
                } else {
                    assert(r[k] == rest[k - m]);
                    assert(r[k + 1] == rest[k - m + 1]);
                    if k == m {
                        assert(r[k - 1] == c);
                    } else {
                        assert(r[k - 1] == rest[k - m - 1]);
                    }
                }
            }
            if r.len() > 0 && is_unicode_whitespace(r[0]) {
                if sp.len() == 0 {
                    assert(r[0] == c);
                }
            }
        }
    }
}

/// Normalising an arithmetic expression keeps whitespace only as single spaces
/// between two characters that are not operators: no space at either end, none
/// doubled, none next to an operator.
pub proof fn law_normalize_spacing(t: Seq<char>)
    ensures
        is_normalized(spec_normalize(t)),
{
    let u = trim(t);
    lemma_norm_fold_shape(u, 0, false, false);
    let r = norm_fold(u, 0, false, false);
    assert forall|k: int|
        0 <= k < r.len() && is_unicode_whitespace(#[trigger] r[k]) implies r[k] == ' ' && 0 < k && k
        + 1 < r.len() && is_arith_word_char(r[k - 1]) && is_arith_word_char(r[k + 1]) by {
        if k == 0 {
            assert(r.len() > 0 && is_unicode_whitespace(r[0]));
        }
    }
}

proof fn lemma_norm_fold_keeps_normalized(r: Seq<char>, i: int)
    requires
        is_normalized(r),
        0 <= i <= r.len(),
        i > 0 ==> !is_unicode_whitespace(r[i - 1]),
    ensures
        norm_fold(r, i, i > 0 && is_arith_word_char(r[i - 1]), false) == r.subrange(i, r.len() as int),
    decreases r.len() - i,
{
    if i < r.len() {
        let c = r[i];
        if is_unicode_whitespace(c) {
            let d = r[i + 1];
            lemma_norm_fold_keeps_normalized(r, i + 2);
            assert(norm_fold(r, i + 1, true, true) == seq![' '] + seq![d] + norm_fold(
                r,
                i + 2,
                true,
                false,
            ));
            assert(r.subrange(i, r.len() as int) =~= seq![' '] + seq![d] + r.subrange(
                i + 2,
                r.len() as int,
            ));
        } else {
            lemma_norm_fold_keeps_normalized(r, i + 1);
            assert(r.subrange(i, r.len() as int) =~= seq![c] + r.subrange(i + 1, r.len() as int));
            if !is_shell_op_char(c) {
                assert(norm_fold(r, i, i > 0 && is_arith_word_char(r[i - 1]), false) == Seq::<
                    char,
                >::empty() + seq![c] + norm_fold(r, i + 1, true, false));
                assert(Seq::<char>::empty() + seq![c] =~= seq![c]);
            }
        }
    } else {
        assert(r.subrange(i, r.len() as int) =~= Seq::<char>::empty());
    }
}

/// Normalising an arithmetic expression a second time changes nothing.
pub proof fn law_normalize_idempotent(t: Seq<char>)
    ensures
        spec_normalize(spec_normalize(t)) == spec_normalize(t),
{
    let r = spec_normalize(t);
    law_normalize_spacing(t);
    if r.len() > 0 {
        assert(!is_unicode_whitespace(r[0]));
        assert(!is_unicode_whitespace(r[r.len() - 1]));
    }
    assert(crate::arith::trim_front(r, 0) == 0);
    assert(crate::arith::trim_back(r, r.len() as int, 0) == r.len());
    assert(trim(r) =~= r);
    lemma_norm_fold_keeps_normalized(r, 0);
    assert(r.subrange(0, r.len() as int) =~= r);
}

/// There are no mode differences: `((...))` that reads as an arithmetic command is
/// an arithmetic command for every choice of options.
pub proof fn law_arithmetic_command_in_every_mode(s: Seq<char>, p: int, o: ParserOptions)
    requires
        0 <= p <= s.len(),
    ensures
        spec_arithmetic_command(s, p) matches Some((e, a)) ==> spec_paren_compound(s, p, o) == Some(
            (e, SCompoundCommand::Arithmetic(a)),
        ),
{
}

/// A program is read to the end of the text: where it is found, nothing is left.
pub proof fn law_program_reads_to_end(s: Seq<char>, p: int, o: ParserOptions)
    ensures
        spec_program(s, p, o) matches Some((e, _)) ==> e == s.len(),
{
}

/// A word's text is the text it was read from, and its location is where it was read.
pub proof fn law_word_text(s: Seq<char>, p: int)
    ensures
        spec_word(s, p) matches Some((e, w)) ==> w.value == s.subrange(p, e) && w.loc == Some(
            span(p, e),
        ),
{
    reveal(spec_word);
}

/// A word of an extended test that holds no backslash has as its text exactly the
/// characters it was read from (quotes included).
pub proof fn law_ext_test_word_text(s: Seq<char>, p: int)
    requires
        0 <= p <= s.len(),
    ensures
        ext_word_rest(s, p) matches Some((e, v)) ==> ((forall|i: int|
            p <= i < e ==> #[trigger] s[i] != '\\') ==> v == s.subrange(p, e)),
    decreases s.len() - p,
{
    lemma_ext_step(s, p);
    match ext_step(s, p) {
        SWordStep::Take(e1) => {
            law_ext_test_word_text(s, e1);
            if let Some((e, v)) = ext_word_rest(s, p) {
                if forall|i: int| p <= i < e ==> #[trigger] s[i] != '\\' {
                    crate::extended_test_parsers::lemma_ext_word_rest(s, e1);
                    let rest = ext_word_rest(s, e1).unwrap().1;
                    assert forall|i: int| e1 <= i < e implies #[trigger] s[i] != '\\' by {
                        assert(p <= i);
                    }
                    assert(v == s.subrange(p, e1) + rest);
                    assert(s.subrange(p, e1) + s.subrange(e1, e) =~= s.subrange(p, e));
                }
            }
        },
        SWordStep::Skip(e1) => {
            if let Some((e, v)) = ext_word_rest(s, p) {
                crate::extended_test_parsers::lemma_ext_word_rest(s, e1);
                if p < e {
                    assert(s[p] == '\\');
                }
            }
        },
        SWordStep::Stop => {
            assert(s.subrange(p, p) =~= Seq::<char>::empty());
        },
        SWordStep::Fail => {},
    }
}

proof fn lemma_linebreak_idempotent(s: Seq<char>, p: int)
    requires
        0 <= p <= s.len(),
    ensures
        linebreak_scan(s, linebreak_scan(s, p)) == linebreak_scan(s, p),
    decreases s.len() - p,
{
    lemma_line_step(s, p);
    if let Some(e) = line_step(s, p) {
        lemma_linebreak_idempotent(s, e);
    }
}

/// A newline list is a linebreak that took at least one newline; a linebreak read
/// again reads nothing more.
pub proof fn law_newline_list_is_nonempty_linebreak(s: Seq<char>, p: int)
    requires
        0 <= p <= s.len(),
    ensures
        spec_newline_list(s, p) == (if linebreak_end(s, p) > p {
            Some(linebreak_end(s, p))
        } else {
            None::<int>
        }),
        linebreak_end(s, linebreak_end(s, p)) == linebreak_end(s, p),
{
    reveal(linebreak_end);
    reveal(spec_newline_list);
    lemma_line_step(s, p);
    lemma_linebreak_idempotent(s, p);
    if let Some(e) = line_step(s, p) {
        crate::line_parsers::lemma_linebreak_end(s, e);
        reveal(linebreak_end);
    }
}

/// For a scalar assignment (`name=word`, `name+=word`, `name[i]=word`), the word as
/// written back is exactly the text that was read.
#[verifier::spinoff_prover]
#[verifier::rlimit(40)]
pub proof fn law_scalar_assignment_word_is_its_text(s: Seq<char>, p: int)
    requires
        0 <= p <= s.len(),
    ensures
        spec_assignment_word(s, p) matches Some((e, (a, w))) ==> (a.value
            is Scalar ==> w.value == s.subrange(p, e)),
{
    if let Some((e, (a, w))) = spec_assignment_word(s, p) {
        if a.value is Scalar {
            let ne = run_end(s, p + 1, |c: char| is_name_char(c));
            lemma_run_end(s, p + 1, |c: char| is_name_char(c));
            let (ai, idx) = index_part(s, ne).unwrap();
            let append = at(s, ai, '+');
            let eq = if append {
                ai + 1
            } else {
                ai
            };
            crate::word_parsers::lemma_word(s, eq + 1);
            let idx_text = match idx {
                Some(i) => seq!['['] + i + seq![']'],
                None => Seq::empty(),
            };
            assert(s.subrange(p, ne) + idx_text =~= s.subrange(p, ai));
            assert(s.subrange(p, ai) + assign_op_text(append) =~= s.subrange(p, eq + 1));
            assert(s.subrange(p, eq + 1) + s.subrange(eq + 1, e) =~= s.subrange(p, e));
        }
    }
}

/// Position `i` of `x` is a blank, or one of the two characters of a
/// backslash-newline pair.
pub open spec fn blank_or_continuation(x: Seq<char>, i: int) -> bool {
    ||| is_blank(x[i])
    ||| x[i] == '\\' && i + 1 < x.len() && x[i + 1] == '\n'
    ||| x[i] == '\n' && i > 0 && x[i - 1] == '\\'
}

/// `x` is made of blanks and backslash-newline pairs.
pub open spec fn is_blanks_and_continuations(x: Seq<char>) -> bool {
    forall|i: int| 0 <= i < x.len() ==> #[trigger] blank_or_continuation(x, i)
}

/// `x` is a comment: `#` and then anything but a newline.
pub open spec fn is_comment_text(x: Seq<char>) -> bool {
    x.len() > 0 && x[0] == '#' && forall|m: int| 0 < m < x.len() ==> #[trigger] x[m] != '\n'
}

/// `x` is what `spaces` may skip: blanks and backslash-newline pairs, then
/// optionally a comment (without its newline).
pub open spec fn is_space_text(x: Seq<char>) -> bool {
    exists|j: int|
        0 <= j <= x.len() && is_blanks_and_continuations(#[trigger] x.take(j)) && (j == x.len()
            || is_comment_text(x.skip(j)))
}

proof fn lemma_bc_drop(y: Seq<char>, k: int)
    requires
        is_blanks_and_continuations(y),
        0 <= k <= y.len(),
        0 < k < y.len() ==> y[k - 1] != '\\',
    ensures
        is_blanks_and_continuations(y.skip(k)),
{
    let z = y.skip(k);
    assert forall|i: int| 0 <= i < z.len() implies #[trigger] blank_or_continuation(z, i) by {
        assert(blank_or_continuation(y, i + k));
        assert(z[i] == y[i + k]);
        if i + 1 < z.len() {
            assert(z[i + 1] == y[i + k + 1]);
        }
        if i > 0 {
            assert(z[i - 1] == y[i + k - 1]);
        }
    }
}

proof fn lemma_bc_prepend(pre: Seq<char>, y: Seq<char>)
    requires
        is_blanks_and_continuations(y),
        pre == seq![' '] || pre == seq!['\t'] || pre == seq!['\\', '\n'],
    ensures
        is_blanks_and_continuations(pre + y),
{
    let z = pre + y;
    let k = pre.len() as int;
    assert forall|i: int| 0 <= i < z.len() implies #[trigger] blank_or_continuation(z, i) by {
        if i < k {
            assert(z[i] == pre[i]);
            if i + 1 < k {
                assert(z[i + 1] == pre[i + 1]);
            }
            if i > 0 {
                assert(z[i - 1] == pre[i - 1]);
            }
        } else {
            assert(blank_or_continuation(y, i - k));
            assert(z[i] == y[i - k]);
            if i + 1 < z.len() {
                assert(z[i + 1] == y[i - k + 1]);
            }
            if i - k > 0 {
                assert(z[i - 1] == y[i - k - 1]);
            }
        }
    }
}

proof fn lemma_gap_at_newline(s: Seq<char>, p: int)
    requires
        0 <= p <= s.len(),
        p == s.len() || s[p] == '\n',
    ensures
        gap_end(s, p, false) == p,
{
}

proof fn lemma_space_text(s: Seq<char>, p: int)
    requires
        0 <= p <= s.len(),
    ensures
        is_space_text(s.subrange(p, gap_end(s, p, false))),
    decreases s.len() - p,
{
    let e = gap_end(s, p, false);
    let x = s.subrange(p, e);
    if p < s.len() && (is_blank(s[p]) || (s[p] == '\\' && p + 1 < s.len() && s[p + 1] == '\n')) {
        let k: int = if is_blank(s[p]) {
            1
        } else {
            2
        };
        lemma_gap_end(s, p + k, false);
        lemma_space_text(s, p + k);
        let x1 = s.subrange(p + k, e);
        let j1 = choose|j: int|
            0 <= j <= x1.len() && is_blanks_and_continuations(#[trigger] x1.take(j)) && (j
                == x1.len() || is_comment_text(x1.skip(j)));
        let pre = s.subrange(p, p + k);
        if k == 1 {
            assert(pre == seq![' '] || pre == seq!['\t']) by {
                assert(pre =~= seq![s[p]]);
            }
        } else {
            assert(pre =~= seq!['\\', '\n']);
        }
        lemma_bc_prepend(pre, x1.take(j1));
        assert(x.take(j1 + k) =~= pre + x1.take(j1));
        assert(x.skip(j1 + k) =~= x1.skip(j1));
        assert(is_blanks_and_continuations(x.take(j1 + k)));
    } else if p < s.len() && s[p] == '#' {
        let f = |c: char| not_newline(c);
        lemma_run_end(s, p + 1, f);
        let ce = comment_end(s, p);
        lemma_gap_at_newline(s, ce);
        assert(e == ce);
        assert(x.take(0) =~= Seq::<char>::empty());
        assert(x.skip(0) =~= x);
        assert forall|m: int| 0 < m < x.len() implies #[trigger] x[m] != '\n' by {
            assert(x[m] == s[p + m]);
            assert(f(s[p + m]));
        }
        assert(is_blanks_and_continuations(x.take(0)));
    } else {
        assert(e == p);
        assert(x.take(0) =~= Seq::<char>::empty());
        assert(is_blanks_and_continuations(x.take(0)));
    }
}

proof fn lemma_not_space_text(s: Seq<char>, p: int, e2: int)
    requires
        0 <= p <= s.len(),
        gap_end(s, p, false) < e2 <= s.len(),
    ensures
        !is_space_text(s.subrange(p, e2)),
    decreases s.len() - p,
{
    let x = s.subrange(p, e2);
    lemma_gap_end(s, p, false);
    if is_space_text(x) {
        let j = choose|j: int|
            0 <= j <= x.len() && is_blanks_and_continuations(#[trigger] x.take(j)) && (j == x.len()
                || is_comment_text(x.skip(j)));
        let y = x.take(j);
        assert(x[0] == s[p]);
        if is_blank(s[p]) || (s[p] == '\\' && p + 1 < s.len() && s[p + 1] == '\n') {
            let k: int = if is_blank(s[p]) {
                1
            } else {
                2
            };
            if j < k {
                if j == 0 {
                    assert(x.skip(0) =~= x);
                } else {
                    assert(blank_or_continuation(y, 0));
                }
                assert(false);
            }
            if k == 2 {
                assert(x[1] == s[p + 1]);
                assert(y[1] == x[1]);
            }
            lemma_bc_drop(y, k);
            let x1 = s.subrange(p + k, e2);
            assert(x1.take(j - k) =~= y.skip(k));
            assert(x1.skip(j - k) =~= x.skip(j));
            assert(is_space_text(x1));
            lemma_not_space_text(s, p + k, e2);
        } else if s[p] == '#' {
            let f = |c: char| not_newline(c);
            lemma_run_end(s, p + 1, f);
            let ce = comment_end(s, p);
            lemma_gap_at_newline(s, ce);
            if j == 0 {
                assert(x.skip(0) =~= x);
                assert(x[ce - p] == s[ce]);
            } else {
                assert(blank_or_continuation(y, 0));
            }
        } else {
            if j == 0 {
                assert(x.skip(0) =~= x);
            } else {
                assert(blank_or_continuation(y, 0));
                if j > 1 {
                    assert(y[1] == s[p + 1]);
                }
            }
        }
    }
}

/// `spaces` skips exactly the longest prefix made of blanks and backslash-newline
/// pairs followed by an optional comment (whose newline it leaves).
pub proof fn law_spaces_longest(s: Seq<char>, p: int)
    requires
        0 <= p <= s.len(),
    ensures
        is_space_text(s.subrange(p, spaces_end(s, p))),
        forall|e2: int|
            spaces_end(s, p) < e2 <= s.len() ==> !is_space_text(#[trigger] s.subrange(p, e2)),
{
    reveal(spaces_end);
    lemma_space_text(s, p);
    assert forall|e2: int| spaces_end(s, p) < e2 <= s.len() implies !is_space_text(
        #[trigger] s.subrange(p, e2),
    ) by {
        lemma_not_space_text(s, p, e2);
    }
}

/// The first `j` characters of `y` are blanks and the rest, if any, is a comment.
pub open spec fn blanks_then_comment(y: Seq<char>, j: int) -> bool {
    &&& 0 <= j <= y.len()
    &&& forall|i: int| 0 <= i < j ==> is_blank(#[trigger] y[i])
    &&& j == y.len() || is_comment_text(y.skip(j))
}

/// `y` is the body of a line of a linebreak: blanks, then optionally a comment.
pub open spec fn is_line_body(y: Seq<char>) -> bool {
    exists|j: int| #[trigger] blanks_then_comment(y, j)
}

/// `x` is a run of whole lines: it ends with a newline (or is empty), and cut at its
/// newlines every piece is blanks followed by an optional comment.
pub open spec fn is_break_lines(x: Seq<char>) -> bool
    decreases x.len(),
{
    if x.len() == 0 {
        true
    } else {
        let k = run_end(x, 0, |c: char| not_newline(c));
        proof {
            lemma_run_end(x, 0, |c: char| not_newline(c));
        }
        k < x.len() && is_line_body(x.take(k)) && is_break_lines(x.skip(k + 1))
    }
}

proof fn lemma_run_end_is(s: Seq<char>, p: int, k: int, f: spec_fn(char) -> bool)
    requires
        0 <= p <= k <= s.len(),
        forall|i: int| p <= i < k ==> #[trigger] f(s[i]),
        k == s.len() || !f(s[k]),
    ensures
        run_end(s, p, f) == k,
    decreases k - p,
{
    if p < k {
        lemma_run_end_is(s, p + 1, k, f);
    }
}

proof fn lemma_break_lines(s: Seq<char>, p: int)
    requires
        0 <= p <= s.len(),
    ensures
        is_break_lines(s.subrange(p, linebreak_scan(s, p))),
    decreases s.len() - p,
{
    let e = linebreak_scan(s, p);
    let x = s.subrange(p, e);
    lemma_line_step(s, p);
    match line_step(s, p) {
        None => {
            assert(x.len() == 0);
        },
        Some(r1) => {
            let nl = |c: char| not_newline(c);
            let bl = |c: char| is_blank(c);
            lemma_break_lines(s, r1);
            crate::line_parsers::lemma_linebreak_end(s, r1);
            reveal(linebreak_end);
            let r = r1 - 1;
            let q = blank_run_end(s, p);
            lemma_run_end(s, p, bl);
            if at(s, q, '#') {
                lemma_run_end(s, q + 1, nl);
            }
            assert forall|i: int| 0 <= i < r - p implies #[trigger] nl(x[i]) by {
                assert(x[i] == s[p + i]);
                if p + i < q {
                    assert(bl(s[p + i]));
                } else {
                    assert(nl(s[p + i]));
                }
            }
            assert(x[r - p] == s[r]);
            lemma_run_end_is(x, 0, r - p, nl);
            let y = x.take(r - p);
            assert forall|i: int| 0 <= i < q - p implies is_blank(#[trigger] y[i]) by {
                assert(y[i] == s[p + i]);
                assert(bl(s[p + i]));
            }
            if q < r {
                let z = y.skip(q - p);
                assert forall|m: int| 0 < m < z.len() implies #[trigger] z[m] != '\n' by {
                    assert(z[m] == s[q + m]);
                    assert(nl(s[q + m]));
                }
                assert(is_comment_text(z));
            }
            assert(blanks_then_comment(y, q - p));
            assert(is_line_body(y));
            assert(x.skip(r - p + 1) =~= s.subrange(r1, e));
        },
    }
}

proof fn lemma_not_break_lines(s: Seq<char>, p: int, e2: int)
    requires
        0 <= p <= s.len(),
        linebreak_scan(s, p) < e2 <= s.len(),
    ensures
        !is_break_lines(s.subrange(p, e2)),
    decreases s.len() - p,
{
    let x = s.subrange(p, e2);
    crate::line_parsers::lemma_linebreak_end(s, p);
    reveal(linebreak_end);
    if is_break_lines(x) {
        let nl = |c: char| not_newline(c);
        let bl = |c: char| is_blank(c);
        let k = run_end(x, 0, nl);
        lemma_run_end(x, 0, nl);
        let y = x.take(k);
        assert(x.len() > 0);
        assert(k < x.len());
        assert(is_line_body(y));
        let j = choose|j: int| blanks_then_comment(y, j);
        assert(0 <= j <= k);
        assert forall|i: int| p <= i < p + j implies #[trigger] bl(s[i]) by {
            assert(y[i - p] == s[i]);
        }
        if j < k {
            assert(y.skip(j)[0] == s[p + j]);
        } else {
            assert(x[k] == s[p + k]);
        }
        lemma_run_end_is(s, p, p + j, bl);
        if j < k {
            let z = y.skip(j);
            assert forall|i: int| p + j + 1 <= i < p + k implies #[trigger] nl(s[i]) by {
                assert(z[i - p - j] == s[i]);
            }
            assert(x[k] == s[p + k]);
            lemma_run_end_is(s, p + j + 1, p + k, nl);
        }
        assert(x[k] == s[p + k]);
        assert(line_step(s, p) == Some(p + k + 1));
        lemma_line_step(s, p);
        assert(x.skip(k + 1) =~= s.subrange(p + k + 1, e2));
        lemma_not_break_lines(s, p + k + 1, e2);
    }
}

/// `linebreak` takes exactly the longest prefix made of whole lines, each of them
/// blanks, then an optional comment, then a newline.
pub proof fn law_linebreak_longest(s: Seq<char>, p: int)
    requires
        0 <= p <= s.len(),
    ensures
        is_break_lines(s.subrange(p, linebreak_end(s, p))),
        forall|e2: int|
            linebreak_end(s, p) < e2 <= s.len() ==> !is_break_lines(#[trigger] s.subrange(p, e2)),
{
    reveal(linebreak_end);
    lemma_break_lines(s, p);
    assert forall|e2: int| linebreak_end(s, p) < e2 <= s.len() implies !is_break_lines(
        #[trigger] s.subrange(p, e2),
    ) by {
        lemma_not_break_lines(s, p, e2);
    }
}

/// The non-whitespace characters of `x` in order, each paired with whether
/// whitespace separates it from the non-whitespace character before it; `seen` says
/// that such a character came before `x`, and `ws` that whitespace followed it.
pub open spec fn spacing(x: Seq<char>, seen: bool, ws: bool) -> Seq<(char, bool)>
    decreases x.len(),
{
    if x.len() == 0 {
        Seq::empty()
    } else if is_unicode_whitespace(x[0]) {
        spacing(x.drop_first(), seen, true)
    } else {
        seq![(x[0], seen && ws)] + spacing(x.drop_first(), true, false)
    }
}

/// The non-whitespace characters of `x`, each with whether whitespace comes between
/// it and the one before.
pub open spec fn spaced_chars(x: Seq<char>) -> Seq<(char, bool)> {
    spacing(x, false, false)
}

proof fn lemma_spacing_cons(c: char, rest: Seq<char>, seen: bool, ws: bool)
    ensures
        spacing(seq![c] + rest, seen, ws) == if is_unicode_whitespace(c) {
            spacing(rest, seen, true)
        } else {
            seq![(c, seen && ws)] + spacing(rest, true, false)
        },
{
    let x = seq![c] + rest;
    assert(x.drop_first() =~= rest);
    assert(x[0] == c);
}

proof fn lemma_spacing_unseen(x: Seq<char>, w1: bool, w2: bool)
    ensures
        spacing(x, false, w1) == spacing(x, false, w2),
    decreases x.len(),
{
    if x.len() > 0 {
        lemma_spacing_unseen(x.drop_first(), true, true);
    }
}

proof fn lemma_spacing_all_ws(x: Seq<char>, seen: bool, ws: bool)
    requires
        forall|m: int| 0 <= m < x.len() ==> is_unicode_whitespace(#[trigger] x[m]),
    ensures
        spacing(x, seen, ws) == Seq::<(char, bool)>::empty(),
    decreases x.len(),
{
    if x.len() > 0 {
        assert(is_unicode_whitespace(x[0]));
        assert forall|m: int| 0 <= m < x.drop_first().len() implies is_unicode_whitespace(
            #[trigger] x.drop_first()[m],
        ) by {
            assert(x.drop_first()[m] == x[m + 1]);
        }
        lemma_spacing_all_ws(x.drop_first(), seen, true);
    }
}

proof fn lemma_trim_front(t: Seq<char>, i: int)
    requires
        0 <= i <= t.len(),
    ensures
        i <= trim_front(t, i) <= t.len(),
        forall|m: int| i <= m < trim_front(t, i) ==> is_unicode_whitespace(#[trigger] t[m]),
    decreases t.len() - i,
{
    if i < t.len() && is_unicode_whitespace(t[i]) {
        lemma_trim_front(t, i + 1);
    }
}

proof fn lemma_trim_back(t: Seq<char>, e: int, lo: int)
    requires
        0 <= lo <= e <= t.len(),
    ensures
        lo <= trim_back(t, e, lo) <= e,
        forall|m: int| trim_back(t, e, lo) <= m < e ==> is_unicode_whitespace(#[trigger] t[m]),
    decreases e - lo,
{
    if e > lo && is_unicode_whitespace(t[e - 1]) {
        lemma_trim_back(t, e - 1, lo);
    }
}

proof fn lemma_spacing_skip_front(t: Seq<char>, i: int, a: int, w: bool)
    requires
        0 <= i <= a <= t.len(),
        forall|m: int| i <= m < a ==> is_unicode_whitespace(#[trigger] t[m]),
    ensures
        spacing(t.subrange(i, t.len() as int), false, w) == spacing(
            t.subrange(a, t.len() as int),
            false,
            false,
        ),
    decreases a - i,
{
    if i < a {
        let x = t.subrange(i, t.len() as int);
        assert(x.drop_first() =~= t.subrange(i + 1, t.len() as int));
        assert(x[0] == t[i]);
        lemma_spacing_skip_front(t, i + 1, a, true);
    } else {
        lemma_spacing_unseen(t.subrange(a, t.len() as int), w, false);
    }
}

proof fn lemma_spacing_cut_back(t: Seq<char>, i: int, b: int, seen: bool, w: bool)
    requires
        0 <= i <= b <= t.len(),
        forall|m: int| b <= m < t.len() ==> is_unicode_whitespace(#[trigger] t[m]),
    ensures
        spacing(t.subrange(i, t.len() as int), seen, w) == spacing(t.subrange(i, b), seen, w),
    decreases b - i,
{
    if i < b {
        let x = t.subrange(i, t.len() as int);
        let y = t.subrange(i, b);
        assert(x.drop_first() =~= t.subrange(i + 1, t.len() as int));
        assert(y.drop_first() =~= t.subrange(i + 1, b));
        assert(x[0] == t[i] && y[0] == t[i]);
        lemma_spacing_cut_back(t, i + 1, b, true, false);
        lemma_spacing_cut_back(t, i + 1, b, seen, true);
    } else {
        let x = t.subrange(b, t.len() as int);
        assert forall|m: int| 0 <= m < x.len() implies is_unicode_whitespace(#[trigger] x[m]) by {
            assert(x[m] == t[b + m]);
        }
        lemma_spacing_all_ws(x, seen, w);
        assert(t.subrange(b, b) =~= Seq::<char>::empty());
    }
}

/// How normalising changes the spacing of the characters from index `i` of `u`, given
/// the state the fold is in there.
pub open spec fn respaced(m: Seq<(char, bool)>, n: Seq<(char, bool)>, lw: bool) -> bool {
    &&& n.len() == m.len()
    &&& forall|k: int|
        0 <= k < m.len() ==> (#[trigger] n[k]).0 == m[k].0 && n[k].1 == (m[k].1
            && !is_shell_op_char(m[k].0) && if k == 0 {
            lw
        } else {
            !is_shell_op_char(m[k - 1].0)
        })
}

proof fn lemma_fold_spacing(u: Seq<char>, i: int, lw: bool, pend: bool, seen: bool)
    requires
        0 <= i <= u.len(),
        lw ==> seen,
    ensures
        respaced(
            spacing(u.subrange(i, u.len() as int), seen, pend),
            spacing(norm_fold(u, i, lw, pend), seen, false),
            lw,
        ),
    decreases u.len() - i,
{
    let x = u.subrange(i, u.len() as int);
    if i == u.len() {
        assert(x.len() == 0);
    } else {
        let c = u[i];
        let x1 = u.subrange(i + 1, u.len() as int);
        assert(x =~= seq![c] + x1);
        lemma_spacing_cons(c, x1, seen, pend);
        if is_unicode_whitespace(c) {
            lemma_fold_spacing(u, i + 1, lw, true, seen);
        } else if is_shell_op_char(c) {
            let r = norm_fold(u, i + 1, false, false);
            lemma_fold_spacing(u, i + 1, false, false, true);
            lemma_spacing_cons(c, r, seen, false);
            let m = spacing(x, seen, pend);
            let n = spacing(norm_fold(u, i, lw, pend), seen, false);
            let m1 = spacing(x1, true, false);
            let n1 = spacing(r, true, false);
            assert forall|k: int| 0 <= k < m.len() implies (#[trigger] n[k]).0 == m[k].0 && n[k].1
                == (m[k].1 && !is_shell_op_char(m[k].0) && if k == 0 {
                lw
            } else {
                !is_shell_op_char(m[k - 1].0)
            }) by {
                if k > 0 {
                    assert(n[k] == n1[k - 1]);
                    assert(m[k] == m1[k - 1]);
                    if k > 1 {
                        assert(m[k - 1] == m1[k - 2]);
                    }
                }
            }
        } else {
            let r = norm_fold(u, i + 1, true, false);
            lemma_fold_spacing(u, i + 1, true, false, true);
            lemma_spacing_cons(c, r, seen, true);
            lemma_spacing_cons(c, r, seen, false);
            let m = spacing(x, seen, pend);
            let out = norm_fold(u, i, lw, pend);
            if pend && lw {
                assert(out =~= seq![' '] + (seq![c] + r));
                lemma_spacing_cons(' ', seq![c] + r, seen, false);
            } else {
                assert(out =~= seq![c] + r);
            }
            let n = spacing(out, seen, false);
            let m1 = spacing(x1, true, false);
            let n1 = spacing(r, true, false);
            assert forall|k: int| 0 <= k < m.len() implies (#[trigger] n[k]).0 == m[k].0 && n[k].1
                == (m[k].1 && !is_shell_op_char(m[k].0) && if k == 0 {
                lw
            } else {
                !is_shell_op_char(m[k - 1].0)
            }) by {
                if k > 0 {
                    assert(n[k] == n1[k - 1]);
                    assert(m[k] == m1[k - 1]);
                    if k > 1 {
                        assert(m[k - 1] == m1[k - 2]);
                    }
                }
            }
        }
    }
}

/// Normalising keeps the non-whitespace characters of the expression, in order, and
/// puts one space between two of them exactly where whitespace separated them and
/// neither is one of `< > | & ( ) ;` (with `law_normalize_spacing`, that is all of it).
pub proof fn law_normalize_keeps_characters(t: Seq<char>)
    ensures
        ({
            let m = spaced_chars(t);
            let n = spaced_chars(spec_normalize(t));
            &&& n.len() == m.len()
            &&& forall|k: int|
                0 <= k < m.len() ==> (#[trigger] n[k]).0 == m[k].0 && n[k].1 == (m[k].1 && k > 0
                    && !is_shell_op_char(m[k].0) && !is_shell_op_char(m[k - 1].0))
        }),
{
    let a = trim_front(t, 0);
    lemma_trim_front(t, 0);
    let b = trim_back(t, t.len() as int, a);
    lemma_trim_back(t, t.len() as int, a);
    let u = trim(t);
    assert(t.subrange(0, t.len() as int) =~= t);
    lemma_spacing_skip_front(t, 0, a, false);
    lemma_spacing_cut_back(t, a, b, false, false);
    assert(u.subrange(0, u.len() as int) =~= u);
    lemma_fold_spacing(u, 0, false, false, false);
}

/// One step of reading balanced content at `q`: where the next step starts and how
/// the depth changes. An opener adds one, a closer takes one away, a backslash (that
/// is neither) skips the character after it, anything else leaves the depth as is.
pub open spec fn balanced_step(s: Seq<char>, q: int, open: Option<char>, close: char) -> (int, int) {
    if open == Some(s[q]) {
        (q + 1, 1)
    } else if s[q] == close {
        (q + 1, -1)
    } else if s[q] == '\\' && q + 1 < s.len() {
        (q + 2, 0)
    } else {
        (q + 1, 0)
    }
}

/// The running depth when the reading that starts at `q` with depth `d` has arrived
/// at index `n`; `None` where the reading never stops at `n` (inside an escape, before
/// `q`, or past the end of the text).
pub open spec fn depth_at(s: Seq<char>, q: int, open: Option<char>, close: char, d: int, n: int) -> Option<int>
    decreases s.len() - q,
{
    if q == n {
        Some(d)
    } else if q > n || q < 0 || q >= s.len() {
        None
    } else {
        let (q1, delta) = balanced_step(s, q, open, close);
        depth_at(s, q1, open, close, d + delta, n)
    }
}

proof fn lemma_balanced_least(s: Seq<char>, q: int, open: Option<char>, close: char, d: nat)
    requires
        0 <= q <= s.len(),
        d > 0,
    ensures
        balanced_scan(s, q, open, close, d) matches Some(e) ==> depth_at(s, q, open, close, d as int, e)
            == Some(0int) && forall|n: int|
            n < e ==> #[trigger] depth_at(s, q, open, close, d as int, n) != Some(0int),
        balanced_scan(s, q, open, close, d) is None ==> forall|n: int|
            #[trigger] depth_at(s, q, open, close, d as int, n) != Some(0int),
    decreases s.len() - q,
{
    if q < s.len() {
        let (q1, delta) = balanced_step(s, q, open, close);
        let d1 = d + delta;
        assert(balanced_scan(s, q, open, close, d) == balanced_scan(s, q1, open, close, d1 as nat));
        assert forall|n: int| n != q implies #[trigger] depth_at(s, q, open, close, d as int, n)
            == depth_at(s, q1, open, close, d1, n) by {}
        if d1 == 0 {
            assert(depth_at(s, q1, open, close, 0, q1) == Some(0int));
            assert forall|n: int| n < q1 implies #[trigger] depth_at(s, q, open, close, d as int, n)
                != Some(0int) by {
                if n != q {
                    assert(depth_at(s, q1, open, close, 0, n) is None);
                }
            }
        } else {
            lemma_balanced_least(s, q1, open, close, d1 as nat);
            lemma_balanced_scan(s, q1, open, close, d1 as nat);
            assert forall|n: int| n < q1 implies #[trigger] depth_at(s, q1, open, close, d1, n)
                is None by {}
        }
    } else {
        assert forall|n: int| #[trigger] depth_at(s, q, open, close, d as int, n) != Some(0int) by {}
    }
}

/// Balanced content ends at the least index where the running depth, started at the
/// given depth after the prefix, comes to zero; where the depth never comes to zero
/// (or the prefix is missing) nothing is read.
pub proof fn law_balanced_least_closing(
    s: Seq<char>,
    p: int,
    prefix: Seq<char>,
    open: Option<char>,
    close: char,
    depth: nat,
)
    requires
        0 <= p <= s.len(),
    ensures
        ({
            let a = p + prefix.len();
            &&& spec_balanced(s, p, prefix, open, close, depth) matches Some(e) ==> lit_at(s, p, prefix)
                && depth_at(s, a, open, close, depth as int, e) == Some(0int) && forall|n: int|
                n < e ==> #[trigger] depth_at(s, a, open, close, depth as int, n) != Some(0int)
            &&& spec_balanced(s, p, prefix, open, close, depth) is None ==> !lit_at(s, p, prefix)
                || forall|n: int| #[trigger] depth_at(s, a, open, close, depth as int, n) != Some(0int)
        }),
{
    let a = p + prefix.len();
    if lit_at(s, p, prefix) {
        if depth == 0 {
            assert forall|n: int| n < a implies #[trigger] depth_at(s, a, open, close, 0, n)
                != Some(0int) by {}
        } else {
            lemma_balanced_least(s, a, open, close, depth);
        }
    }
}

} // verus!
