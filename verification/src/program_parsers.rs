//! Complete commands and whole programs.

use vstd::prelude::*;
use crate::and_or_parsers::and_or;
use crate::ast::{
    lemma_v_list_items_push, lemma_v_lists_push, v_and_or_list, v_list, v_list_items, v_lists,
    v_program, CompleteCommand, CompoundList, CompoundListItem, Program, SCompoundList, SListItem,
    SeparatorOperator,
};
use crate::char_parsers::{
    at, blank_run_end, comment, comment_end, lemma_run_end, lemma_spaces, not_newline, scan_blanks,
    spaces, spaces_end,
};
use crate::chars::{chars_of, is_blank};
use crate::grammar::{adv, lemma_leaves, spec_and_or, ParserOptions};
use crate::line_parsers::{
    lemma_linebreak_end, lemma_separators, linebreak, linebreak_end, newline_list, separator_op,
    spec_newline_list, spec_separator_op,
};

verus! {

/// Where a source text comes from (for messages).
#[derive(Debug, Default)]
pub struct SourceInfo {
    pub source: String,
}

/// The text is not a program of the shell language.
#[derive(Clone, Copy, Debug, PartialEq, Eq, Structural)]
pub struct ParseError;

/// More and-or lists of a complete command, after a separator operator.
pub open spec fn complete_rest(s: Seq<char>, cur: int, o: ParserOptions, acc: Seq<SListItem>) -> (int, Seq<SListItem>)
    decreases s.len() - cur,
{
    if !(0 <= cur <= s.len()) {
        (cur, acc)
    } else {
        match spec_and_or(s, cur, o) {
            None => (cur, acc),
            Some((e, ao)) => if adv(s, cur, e) {
                proof {
                    lemma_leaves(s, e);
                }
                let q = spaces_end(s, e);
                match spec_separator_op(s, q) {
                    Some((e2, sep)) => {
                        proof {
                            lemma_leaves(s, q);
                            lemma_leaves(s, e2);
                        }
                        complete_rest(s, spaces_end(s, e2), o, acc.push(SListItem { ao, sep }))
                    },
                    None => (q, acc.push(SListItem { ao, sep: SeparatorOperator::Sequence })),
                }
            } else {
                (cur, acc)
            },
        }
    }
}

/// A complete command: and-or lists on one line, separated by `;` or `&`.
pub open spec fn spec_complete_command(s: Seq<char>, p: int, o: ParserOptions) -> Option<(int, SCompoundList)> {
    match spec_and_or(s, p, o) {
        Some((e, ao)) => if adv(s, p, e) {
            let q = spaces_end(s, e);
            match spec_separator_op(s, q) {
                Some((e2, sep)) => Some(complete_rest(s, spaces_end(s, e2), o, seq![SListItem { ao, sep }])),
                None => Some((q, seq![SListItem { ao, sep: SeparatorOperator::Sequence }])),
            }
        } else {
            None
        },
        None => None,
    }
}

/// A newline list, then a complete command.
pub open spec fn spec_complete_command_continuation(s: Seq<char>, p: int, o: ParserOptions) -> Option<(int, SCompoundList)> {
    match spec_newline_list(s, p) {
        Some(q) => spec_complete_command(s, q, o),
        None => None,
    }
}

pub open spec fn commands_rest(s: Seq<char>, cur: int, o: ParserOptions, acc: Seq<SCompoundList>) -> (int, Seq<SCompoundList>)
    decreases s.len() - cur,
{
    if !(0 <= cur <= s.len()) {
        (cur, acc)
    } else {
        match spec_complete_command_continuation(s, cur, o) {
            Some((e, c)) => if adv(s, cur, e) {
                commands_rest(s, e, o, acc.push(c))
            } else {
                (cur, acc)
            },
            None => (cur, acc),
        }
    }
}

/// One or more complete commands separated by newlines.
pub open spec fn spec_complete_commands(s: Seq<char>, p: int, o: ParserOptions) -> Option<(int, Seq<SCompoundList>)> {
    match spec_complete_command(s, p, o) {
        Some((e, c)) => Some(commands_rest(s, e, o, seq![c])),
        None => None,
    }
}

/// A program: a linebreak, optional complete commands, a linebreak, optional blanks
/// and an optional comment, then the end of the text.
pub open spec fn spec_program(s: Seq<char>, p: int, o: ParserOptions) -> Option<(int, Seq<SCompoundList>)> {
    let q = linebreak_end(s, p);
    let (e, cmds) = match spec_complete_commands(s, q, o) {
        Some((e, c)) => (e, c),
        None => (q, Seq::empty()),
    };
    let e3 = blank_run_end(s, linebreak_end(s, e));
    let e4 = if at(s, e3, '#') {
        comment_end(s, e3)
    } else {
        e3
    };
    if e4 == s.len() {
        Some((e4, cmds))
    } else {
        None
    }
}

/// The options the whole-program parse runs with: none of them is set.
pub open spec fn default_options() -> ParserOptions {
    ParserOptions { posix_mode: false, sh_mode: false }
}

/// The program that the whole text `t` is, if it is one.
pub open spec fn spec_parse_program(t: Seq<char>) -> Option<Seq<SCompoundList>> {
    match spec_program(t, 0, default_options()) {
        Some((_, cmds)) => Some(cmds),
        None => None,
    }
}

pub proof fn lemma_complete_rest(s: Seq<char>, cur: int, o: ParserOptions, acc: Seq<SListItem>)
    requires
        0 <= cur <= s.len(),
    ensures
        cur <= complete_rest(s, cur, o, acc).0 <= s.len(),
    decreases s.len() - cur,
{
    if let Some((e, ao)) = spec_and_or(s, cur, o) {
        if adv(s, cur, e) {
            lemma_leaves(s, e);
            let q = spaces_end(s, e);
            if let Some((e2, sep)) = spec_separator_op(s, q) {
                lemma_leaves(s, q);
                lemma_leaves(s, e2);
                lemma_complete_rest(s, spaces_end(s, e2), o, acc.push(SListItem { ao, sep }));
            }
        }
    }
}

// ---------------------------------------------------------------- exec

/// A complete command: and-or lists on one line, separated by `;` or `&`; the last
/// is given the `;` separator when none follows it.
pub fn complete_command(s: &[char], pos: usize, o: ParserOptions) -> (r: Option<(usize, CompleteCommand)>)
    requires
        pos <= s@.len(),
    ensures
        r matches Some((e, x)) ==> spec_complete_command(s@, pos as int, o) == Some((e as int, v_list(x))),
        r is None ==> spec_complete_command(s@, pos as int, o) is None,
        r matches Some((e, _)) ==> pos < e <= s@.len(),
{
    let (e, first) = match and_or(s, pos, o) {
        Some(x) => x,
        None => {
            return None;
        },
    };
    let q = spaces(s, e);
    let mut items: Vec<CompoundListItem> = Vec::new();
    proof {
        assert(v_list_items(items@) =~= Seq::<SListItem>::empty());
    }
    match separator_op(s, q) {
        None => {
            let item = CompoundListItem(first, SeparatorOperator::Sequence);
            proof {
                lemma_v_list_items_push(items@, item);
                assert(v_list_items(items@).push(v_list_item_of(item)) =~= seq![v_list_item_of(item)]);
            }
            items.push(item);
            return Some((q, CompoundList(items)));
        },
        Some((e2, sep)) => {
            let item = CompoundListItem(first, sep);
            proof {
                lemma_v_list_items_push(items@, item);
                assert(v_list_items(items@).push(v_list_item_of(item)) =~= seq![v_list_item_of(item)]);
            }
            items.push(item);
            let mut cur = spaces(s, e2);
            loop
                invariant
                    pos < cur <= s@.len(),
                    spec_complete_command(s@, pos as int, o) == Some(
                        complete_rest(s@, cur as int, o, v_list_items(items@)),
                    ),
                decreases s@.len() - cur,
            {
                match and_or(s, cur, o) {
                    None => {
                        return Some((cur, CompoundList(items)));
                    },
                    Some((e3, ao)) => {
                        let q3 = spaces(s, e3);
                        match separator_op(s, q3) {
                            Some((e4, sep)) => {
                                let item = CompoundListItem(ao, sep);
                                proof {
                                    lemma_v_list_items_push(items@, item);
                                }
                                items.push(item);
                                cur = spaces(s, e4);
                            },
                            None => {
                                let item = CompoundListItem(ao, SeparatorOperator::Sequence);
                                proof {
                                    lemma_v_list_items_push(items@, item);
                                }
                                items.push(item);
                                return Some((q3, CompoundList(items)));
                            },
                        }
                    },
                }
            }
        },
    }
}

pub open spec fn v_list_item_of(i: CompoundListItem) -> SListItem {
    crate::ast::v_list_item(i)
}

/// A newline list, then a complete command.
pub fn complete_command_continuation(s: &[char], pos: usize, o: ParserOptions) -> (r: Option<(usize, CompleteCommand)>)
    requires
        pos <= s@.len(),
    ensures
        r matches Some((e, x)) ==> spec_complete_command_continuation(s@, pos as int, o) == Some(
            (e as int, v_list(x)),
        ),
        r is None ==> spec_complete_command_continuation(s@, pos as int, o) is None,
        r matches Some((e, _)) ==> pos < e <= s@.len(),
{
    match newline_list(s, pos) {
        Some(q) => complete_command(s, q, o),
        None => None,
    }
}

/// One or more complete commands separated by newlines.
pub fn complete_commands(s: &[char], pos: usize, o: ParserOptions) -> (r: Option<(usize, Vec<CompleteCommand>)>)
    requires
        pos <= s@.len(),
    ensures
        r matches Some((e, x)) ==> spec_complete_commands(s@, pos as int, o) == Some((e as int, v_lists(x@))),
        r is None ==> spec_complete_commands(s@, pos as int, o) is None,
        r matches Some((e, _)) ==> pos < e <= s@.len(),
{
    let (e, first) = match complete_command(s, pos, o) {
        Some(x) => x,
        None => {
            return None;
        },
    };
    let mut commands: Vec<CompleteCommand> = Vec::new();
    proof {
        lemma_v_lists_push(commands@, first);
        assert(v_lists(commands@).push(v_list(first)) =~= seq![v_list(first)]);
    }
    commands.push(first);
    let mut cur = e;
    loop
        invariant
            pos < cur <= s@.len(),
            spec_complete_commands(s@, pos as int, o) == Some(commands_rest(s@, cur as int, o, v_lists(commands@))),
        decreases s@.len() - cur,
    {
        match complete_command_continuation(s, cur, o) {
            Some((e2, c)) => {
                proof {
                    lemma_v_lists_push(commands@, c);
                }
                commands.push(c);
                cur = e2;
            },
            None => {
                return Some((cur, commands));
            },
        }
    }
}

/// A program: a linebreak, optional complete commands, a linebreak, optional blanks
/// and an optional comment, then the end of the text.
pub fn program(s: &[char], pos: usize, o: ParserOptions) -> (r: Option<(usize, Program)>)
    requires
        pos <= s@.len(),
    ensures
        r matches Some((e, x)) ==> spec_program(s@, pos as int, o) == Some((e as int, v_program(x))),
        r is None ==> spec_program(s@, pos as int, o) is None,
{
    let q = linebreak(s, pos);
    let (e, complete_commands) = match complete_commands(s, q, o) {
        Some((e, c)) => (e, c),
        None => (q, Vec::new()),
    };
    proof {
        assert(v_lists(Seq::<CompoundList>::empty()) =~= Seq::<SCompoundList>::empty());
        lemma_linebreak_end(s@, e as int);
        lemma_run_end(s@, linebreak_end(s@, e as int), |c: char| is_blank(c));
    }
    let e3 = scan_blanks(s, linebreak(s, e));
    let e4 = match comment(s, e3) {
        Some(x) => x,
        None => e3,
    };
    if e4 == s.len() {
        Some((e4, Program { complete_commands }))
    } else {
        None
    }
}

/// Parses a whole shell program.
///
/// The options and the source information are accepted for compatibility and not
/// used: there are no POSIX or `sh` mode differences, so the result is the same
/// whatever options are given.
pub fn parse_program(input: &str, _options: &ParserOptions, _source_info: &SourceInfo) -> (r: Result<Program, ParseError>)
    ensures
        r matches Ok(p) ==> spec_parse_program(input@) == Some(v_program(p)),
        r is Err ==> spec_parse_program(input@) is None,
{
    let chars = chars_of(input);
    let options = ParserOptions { posix_mode: false, sh_mode: false };
    match program(chars.as_slice(), 0, options) {
        Some((_, p)) => Ok(p),
        None => Err(ParseError),
    }
}

} // verus!
