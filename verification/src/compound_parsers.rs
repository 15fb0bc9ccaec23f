//! Compound lists and the compound commands: brace groups, subshells, process
//! substitutions, do groups; and variable names.

use vstd::prelude::*;
use crate::arith::arithmetic_command;
use crate::ast::{
    lemma_v_list_items_push, v_and_or_list, v_brace, v_compound, v_do, v_list, v_list_item,
    v_list_items, v_subshell, BraceGroupCommand, CompoundCommand, CompoundList, CompoundListItem,
    DoGroupCommand, ProcessSubstitutionKind, SeparatorOperator, SourceSpan, SubshellCommand,
};
use crate::and_or_parsers::and_or;
use crate::char_parsers::{spaces, spaces1, spaces_end};
use crate::chars::{is_name_char, name_char, name_start, string_from_chars};
use crate::control_flow_parsers::{case_clause, for_or_arithmetic_for, if_clause, until_clause, while_clause};
use crate::grammar::{
    list_rest, paren_list as spec_paren_list, spec_brace_group,
    spec_compound_command, spec_compound_list, spec_do_group, spec_is_valid_name, spec_name,
    spec_paren_compound, spec_process_substitution, spec_subshell, ParserOptions,
};
use crate::line_parsers::{linebreak, separator};
use crate::word_parsers::{bare_word, keyword};

pub use crate::line_parsers::sequential_sep;

verus! {

/// A compound list: an optional linebreak, then and-or lists, each ended by a
/// separator (`;`, `&` or newlines; the last may have none).
pub fn compound_list(s: &[char], pos: usize, o: ParserOptions) -> (r: Option<(usize, CompoundList)>)
    requires
        pos <= s@.len(),
    ensures
        r matches Some((e, x)) ==> spec_compound_list(s@, pos as int, o) == Some((e as int, v_list(x))),
        r is None ==> spec_compound_list(s@, pos as int, o) is None,
        r matches Some((e, _)) ==> pos < e <= s@.len(),
    decreases s@.len() - pos, 20nat,
{
    let q = linebreak(s, pos);
    let (e, first) = match and_or(s, q, o) {
        Some(x) => x,
        None => {
            return None;
        },
    };
    let mut items: Vec<CompoundListItem> = Vec::new();
    let mut cur = e;
    let mut ao = first;
    proof {
        assert(v_list_items(items@) =~= Seq::<crate::ast::SListItem>::empty());
    }
    loop
        invariant
            pos < cur <= s@.len(),
            spec_compound_list(s@, pos as int, o) == list_rest(
                s@,
                cur as int,
                o,
                v_and_or_list(ao),
                v_list_items(items@),
            ),
        decreases s@.len() - cur,
    {
        let q = spaces(s, cur);
        match separator(s, q) {
            None => {
                let item = CompoundListItem(ao, SeparatorOperator::Sequence);
                proof {
                    lemma_v_list_items_push(items@, item);
                }
                items.push(item);
                return Some((q, CompoundList(items)));
            },
            Some((e, sep)) => {
                let r = spaces(s, e);
                let sep = match sep {
                    Some(op) => op,
                    None => SeparatorOperator::Sequence,
                };
                match and_or(s, r, o) {
                    Some((e2, ao2)) => {
                        let item = CompoundListItem(ao, sep);
                        proof {
                            lemma_v_list_items_push(items@, item);
                        }
                        items.push(item);
                        ao = ao2;
                        cur = e2;
                    },
                    None => {
                        let item = CompoundListItem(ao, sep);
                        proof {
                            lemma_v_list_items_push(items@, item);
                        }
                        items.push(item);
                        return Some((r, CompoundList(items)));
                    },
                }
            },
        }
    }
}

/// `(`, spaces, a linebreak, a compound list, a linebreak, spaces, `)`.
fn paren_list(s: &[char], pos: usize, o: ParserOptions) -> (r: Option<(usize, CompoundList)>)
    requires
        pos <= s@.len(),
    ensures
        r matches Some((e, x)) ==> spec_paren_list(s@, pos as int, o) == Some((e as int, v_list(x))),
        r is None ==> spec_paren_list(s@, pos as int, o) is None,
        r matches Some((e, _)) ==> pos < e <= s@.len(),
    decreases s@.len() - pos, 1nat,
{
    let n = s.len();
    if !(pos < n && s[pos] == '(') {
        return None;
    }
    let q = linebreak(s, spaces(s, pos + 1));
    match compound_list(s, q, o) {
        Some((e, l)) => {
            let r = spaces(s, linebreak(s, e));
            if r < n && s[r] == ')' {
                Some((r + 1, l))
            } else {
                None
            }
        },
        None => None,
    }
}

/// A subshell `( list )`.
pub fn subshell(s: &[char], pos: usize, o: ParserOptions) -> (r: Option<(usize, SubshellCommand)>)
    requires
        pos <= s@.len(),
    ensures
        r matches Some((e, x)) ==> spec_subshell(s@, pos as int, o) == Some((e as int, v_subshell(x))),
        r is None ==> spec_subshell(s@, pos as int, o) is None,
        r matches Some((e, _)) ==> pos < e <= s@.len(),
    decreases s@.len() - pos, 14nat,
{
    match paren_list(s, pos, o) {
        Some((e, list)) => Some((e, SubshellCommand { list, loc: SourceSpan { start: pos, end: e } })),
        None => None,
    }
}

/// A brace group `{ list; }`: `{` must be followed by a blank or a newline.
pub fn brace_group(s: &[char], pos: usize, o: ParserOptions) -> (r: Option<(usize, BraceGroupCommand)>)
    requires
        pos <= s@.len(),
    ensures
        r matches Some((e, x)) ==> spec_brace_group(s@, pos as int, o) == Some((e as int, v_brace(x))),
        r is None ==> spec_brace_group(s@, pos as int, o) is None,
        r matches Some((e, _)) ==> pos < e <= s@.len(),
    decreases s@.len() - pos, 15nat,
{
    let n = s.len();
    if !(pos < n && s[pos] == '{') {
        return None;
    }
    let q = match spaces1(s, pos + 1) {
        Some(e) => e,
        None => if pos + 1 < n && s[pos + 1] == '\n' {
            pos + 2
        } else {
            return None;
        },
    };
    match compound_list(s, q, o) {
        Some((e, list)) => {
            let r = spaces(s, linebreak(s, e));
            if r < n && s[r] == '}' {
                Some((r + 1, BraceGroupCommand { list, loc: SourceSpan { start: pos, end: r + 1 } }))
            } else {
                None
            }
        },
        None => None,
    }
}

/// A process substitution `<( list )` or `>( list )`.
pub fn process_substitution(s: &[char], pos: usize, o: ParserOptions) -> (r: Option<
    (usize, (ProcessSubstitutionKind, SubshellCommand)),
>)
    requires
        pos <= s@.len(),
    ensures
        r matches Some((e, (k, x))) ==> spec_process_substitution(s@, pos as int, o) == Some(
            (e as int, (k, v_subshell(x))),
        ),
        r is None ==> spec_process_substitution(s@, pos as int, o) is None,
        r matches Some((e, _)) ==> pos < e <= s@.len(),
    decreases s@.len() - pos, 2nat,
{
    let n = s.len();
    if pos >= n {
        return None;
    }
    let kind = if s[pos] == '<' {
        ProcessSubstitutionKind::Read
    } else if s[pos] == '>' {
        ProcessSubstitutionKind::Write
    } else {
        return None;
    };
    match paren_list(s, pos + 1, o) {
        Some((e, list)) => Some((e, (kind, SubshellCommand { list, loc: SourceSpan { start: pos, end: e } }))),
        None => None,
    }
}

/// A do group `do list done`.
pub fn do_group(s: &[char], pos: usize, o: ParserOptions) -> (r: Option<(usize, DoGroupCommand)>)
    requires
        pos <= s@.len(),
    ensures
        r matches Some((e, x)) ==> spec_do_group(s@, pos as int, o) == Some((e as int, v_do(x))),
        r is None ==> spec_do_group(s@, pos as int, o) is None,
        r matches Some((e, _)) ==> pos < e <= s@.len(),
    decreases s@.len() - pos, 3nat,
{
    proof {
        reveal_strlit("do");
        reveal_strlit("done");
    }
    let q = match keyword(s, pos, "do") {
        Some(q) => q,
        None => {
            return None;
        },
    };
    match compound_list(s, q, o) {
        Some((e, list)) => match keyword(s, e, "done") {
            Some(r) => Some((r, DoGroupCommand { list, loc: SourceSpan { start: pos, end: r } })),
            None => None,
        },
        None => None,
    }
}

/// A compound command, chosen by its first character after optional spaces.
pub fn compound_command(s: &[char], pos: usize, o: ParserOptions) -> (r: Option<(usize, CompoundCommand)>)
    requires
        pos <= s@.len(),
    ensures
        r matches Some((e, x)) ==> spec_compound_command(s@, pos as int, o) == Some((e as int, v_compound(x))),
        r is None ==> spec_compound_command(s@, pos as int, o) is None,
        r matches Some((e, _)) ==> pos < e <= s@.len(),
    decreases s@.len() - pos, 16nat,
{
    let q = spaces(s, pos);
    if q >= s.len() {
        return None;
    }
    let c = s[q];
    if c == '{' {
        match brace_group(s, q, o) {
            Some((e, b)) => Some((e, CompoundCommand::BraceGroup(b))),
            None => None,
        }
    } else if c == '(' {
        paren_compound(s, q, o)
    } else if c == 'f' {
        for_or_arithmetic_for(s, q, o)
    } else if c == 'c' {
        match case_clause(s, q, o) {
            Some((e, x)) => Some((e, CompoundCommand::CaseClause(x))),
            None => None,
        }
    } else if c == 'i' {
        match if_clause(s, q, o) {
            Some((e, x)) => Some((e, CompoundCommand::IfClause(x))),
            None => None,
        }
    } else if c == 'w' {
        match while_clause(s, q, o) {
            Some((e, x)) => Some((e, CompoundCommand::WhileClause(x))),
            None => None,
        }
    } else if c == 'u' {
        match until_clause(s, q, o) {
            Some((e, x)) => Some((e, CompoundCommand::UntilClause(x))),
            None => None,
        }
    } else {
        None
    }
}

/// A command starting with `(`: an arithmetic command `(( ))`, or failing that a
/// subshell.
pub fn paren_compound(s: &[char], pos: usize, o: ParserOptions) -> (r: Option<(usize, CompoundCommand)>)
    requires
        pos <= s@.len(),
    ensures
        r matches Some((e, x)) ==> spec_paren_compound(s@, pos as int, o) == Some((e as int, v_compound(x))),
        r is None ==> spec_paren_compound(s@, pos as int, o) is None,
        r matches Some((e, _)) ==> pos < e <= s@.len(),
    decreases s@.len() - pos, 15nat,
{
    match arithmetic_command(s, pos) {
        Some((e, a)) => {
            return Some((e, CompoundCommand::Arithmetic(a)));
        },
        None => {},
    }
    match subshell(s, pos, o) {
        Some((e, b)) => Some((e, CompoundCommand::Subshell(b))),
        None => None,
    }
}

/// Whether the characters `s[a..b]` form a variable name.
pub fn valid_name_at(s: &[char], a: usize, b: usize) -> (r: bool)
    requires
        a <= b <= s@.len(),
    ensures
        r == spec_is_valid_name(s@.subrange(a as int, b as int)),
{
    let ghost t = s@.subrange(a as int, b as int);
    if a == b || !name_start(s[a]) {
        return false;
    }
    let mut i = a + 1;
    while i < b
        invariant
            a < i <= b <= s@.len(),
            t == s@.subrange(a as int, b as int),
            forall|j: int| 1 <= j < i - a ==> is_name_char(#[trigger] t[j]),
        decreases b - i,
    {
        if !name_char(s[i]) {
            assert(!is_name_char(t[i - a]));
            return false;
        }
        i = i + 1;
    }
    true
}

/// Whether `s` is a valid shell variable name: a letter or `_`, then letters, digits
/// and `_`.
pub fn is_valid_name(s: &str) -> (r: bool)
    ensures
        r == spec_is_valid_name(s@),
{
    let cs = crate::chars::chars_of(s);
    proof {
        assert(cs@.subrange(0, cs@.len() as int) =~= s@);
    }
    valid_name_at(cs.as_slice(), 0, cs.len())
}

/// A variable name after optional spaces.
pub fn name(s: &[char], pos: usize) -> (r: Option<(usize, String)>)
    requires
        pos <= s@.len(),
    ensures
        r matches Some((e, x)) ==> spec_name(s@, pos as int) == Some((e as int, x@)),
        r is None ==> spec_name(s@, pos as int) is None,
        r matches Some((e, x)) ==> spaces_end(s@, pos as int) < e <= s@.len() && x@ == s@.subrange(
            spaces_end(s@, pos as int),
            e as int,
        ),
{
    proof {
        reveal(spec_name);
    }
    let q = spaces(s, pos);
    match bare_word(s, q) {
        Some(e) => if valid_name_at(s, q, e) {
            Some((e, string_from_chars(s, q, e)))
        } else {
            None
        },
        None => None,
    }
}

} // verus!
