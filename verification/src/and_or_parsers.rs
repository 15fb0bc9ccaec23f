//! And-or lists, pipelines, commands and simple commands.

use vstd::prelude::*;
use crate::ast::{
    lemma_v_and_ors_push, lemma_v_commands_push, lemma_v_items_push, v_and_or_list, v_and_ors,
    v_command, v_commands, v_item, v_items, v_pipeline, v_simple, AndOr, AndOrList, Command,
    CommandPrefix, CommandPrefixOrSuffixItem, CommandSuffix, Pipeline, SimpleCommand,
};
use crate::char_parsers::{at, spaces, spaces_end};
use crate::command_parsers::{cmd_prefix, io_redirect, redirect_list};
use crate::compound_parsers::{compound_command, process_substitution};
use crate::extended_test_parsers::extended_test_command;
use crate::function_parsers::function_definition;
use crate::grammar::{
    and_or_op, and_or_rest, pipeline_rest, spec_and_or, spec_command, spec_pipeline,
    spec_simple_command, spec_suffix_item, suffix_rest, ParserOptions,
};
use crate::line_parsers::linebreak;
use crate::word_parsers::{reserved_word_at, word_as_ast};

verus! {

fn and_or_op_exec(s: &[char], q: usize) -> (r: Option<bool>)
    requires
        q <= s@.len(),
    ensures
        r == and_or_op(s@, q as int),
        r is Some ==> q + 2 <= s@.len(),
{
    let n = s.len();
    if q < n && n - q > 1 && s[q] == '&' && s[q + 1] == '&' {
        Some(true)
    } else if q < n && n - q > 1 && s[q] == '|' && s[q + 1] == '|' {
        Some(false)
    } else {
        None
    }
}

/// An and-or list: pipelines joined by `&&` and `||`.
pub fn and_or(s: &[char], pos: usize, o: ParserOptions) -> (r: Option<(usize, AndOrList)>)
    requires
        pos <= s@.len(),
    ensures
        r matches Some((e, x)) ==> spec_and_or(s@, pos as int, o) == Some((e as int, v_and_or_list(x))),
        r is None ==> spec_and_or(s@, pos as int, o) is None,
        r matches Some((e, _)) ==> pos < e <= s@.len(),
    decreases s@.len() - pos, 19nat,
{
    let (e, first) = match pipeline(s, pos, o) {
        Some(x) => x,
        None => {
            return None;
        },
    };
    let n = s.len();
    let mut additional: Vec<AndOr> = Vec::new();
    let mut cur = e;
    proof {
        assert(v_and_ors(additional@) =~= Seq::<crate::ast::SAndOr>::empty());
    }
    loop
        invariant
            pos < cur <= s@.len(),
            n == s@.len(),
            spec_and_or(s@, pos as int, o) is Some,
            and_or_rest(s@, cur as int, o, v_pipeline(first), v_and_ors(additional@)) == spec_and_or(
                s@,
                pos as int,
                o,
            ).unwrap(),
        decreases s@.len() - cur,
    {
        let q = spaces(s, cur);
        match and_or_op_exec(s, q) {
            None => {
                return Some((cur, AndOrList { first, additional }));
            },
            Some(is_and) => {
                let r = linebreak(s, q + 2);
                match pipeline(s, r, o) {
                    Some((e2, pl)) => {
                        let item = if is_and {
                            AndOr::And(pl)
                        } else {
                            AndOr::Or(pl)
                        };
                        proof {
                            lemma_v_and_ors_push(additional@, item);
                        }
                        additional.push(item);
                        cur = e2;
                    },
                    None => {
                        return Some((cur, AndOrList { first, additional }));
                    },
                }
            },
        }
    }
}

/// A pipeline: optional spaces, an optional `!` and a blank, then commands joined by
/// `|` (each may be followed by a linebreak).
pub fn pipeline(s: &[char], pos: usize, o: ParserOptions) -> (r: Option<(usize, Pipeline)>)
    requires
        pos <= s@.len(),
    ensures
        r matches Some((e, x)) ==> spec_pipeline(s@, pos as int, o) == Some((e as int, v_pipeline(x))),
        r is None ==> spec_pipeline(s@, pos as int, o) is None,
        r matches Some((e, _)) ==> pos < e <= s@.len(),
    decreases s@.len() - pos, 18nat,
{
    let n = s.len();
    let q = spaces(s, pos);
    let bang = q < n && s[q] == '!' && n - q > 1 && (s[q + 1] == ' ' || s[q + 1] == '\t');
    let c = if bang {
        spaces(s, q + 1)
    } else {
        q
    };
    let (e, cmd) = match command(s, c, o) {
        Some(x) => x,
        None => {
            return None;
        },
    };
    let mut seq: Vec<Command> = Vec::new();
    proof {
        lemma_v_commands_push(seq@, cmd);
        assert(seq@.push(cmd) =~= seq![cmd]);
        assert(v_commands(seq![cmd]) =~= seq![v_command(cmd)]);
    }
    seq.push(cmd);
    let mut cur = e;
    loop
        invariant
            pos < cur <= s@.len(),
            n == s@.len(),
            spec_pipeline(s@, pos as int, o) is Some,
            pipeline_rest(s@, cur as int, o, bang, v_commands(seq@)) == spec_pipeline(
                s@,
                pos as int,
                o,
            ).unwrap(),
        decreases s@.len() - cur,
    {
        let q = spaces(s, cur);
        if q < n && s[q] == '|' && !(n - q > 1 && s[q + 1] == '|') {
            let r = spaces(s, linebreak(s, q + 1));
            match command(s, r, o) {
                Some((e2, c2)) => {
                    proof {
                        lemma_v_commands_push(seq@, c2);
                    }
                    seq.push(c2);
                    cur = e2;
                },
                None => {
                    return Some((cur, Pipeline { bang, seq }));
                },
            }
        } else {
            return Some((cur, Pipeline { bang, seq }));
        }
    }
}

/// A command: a compound command with optional redirections, a function definition,
/// an extended test or a simple command, tried in that order.
pub fn command(s: &[char], pos: usize, o: ParserOptions) -> (r: Option<(usize, Command)>)
    requires
        pos <= s@.len(),
    ensures
        r matches Some((e, x)) ==> spec_command(s@, pos as int, o) == Some((e as int, v_command(x))),
        r is None ==> spec_command(s@, pos as int, o) is None,
        r matches Some((e, _)) ==> pos < e <= s@.len(),
    decreases s@.len() - pos, 17nat,
{
    match compound_command(s, pos, o) {
        Some((e, cc)) => {
            return match redirect_list(s, spaces(s, e)) {
                Some((e2, rl)) => Some((e2, Command::Compound(cc, Some(rl)))),
                None => Some((e, Command::Compound(cc, None))),
            };
        },
        None => {},
    }
    match function_definition(s, pos, o) {
        Some((e, f)) => {
            return Some((e, Command::Function(f)));
        },
        None => {},
    }
    match extended_test_command(s, pos) {
        Some((e, t)) => {
            return Some((e, Command::ExtendedTest(t)));
        },
        None => {},
    }
    match simple_command(s, pos, o) {
        Some((e, c)) => Some((e, Command::Simple(c))),
        None => None,
    }
}

/// A simple command: an optional prefix, then a command name that is not a reserved
/// word, with its suffix; or the prefix alone.
pub fn simple_command(s: &[char], pos: usize, o: ParserOptions) -> (r: Option<(usize, SimpleCommand)>)
    requires
        pos <= s@.len(),
    ensures
        r matches Some((e, x)) ==> spec_simple_command(s@, pos as int, o) == Some((e as int, v_simple(x))),
        r is None ==> spec_simple_command(s@, pos as int, o) is None,
        r matches Some((e, _)) ==> pos < e <= s@.len(),
    decreases s@.len() - pos, 16nat,
{
    let (p1, prefix) = match cmd_prefix(s, pos) {
        Some((e, x)) => (e, Some(x)),
        None => (pos, None),
    };
    let named = match word_as_ast(s, p1) {
        Some((e, w)) => if !reserved_word_at(s, p1, e) {
            Some((e, w))
        } else {
            None
        },
        None => None,
    };
    match named {
        Some((e, w)) => {
            let (e2, suffix) = suffix_items(s, e, o);
            let suffix = if suffix.len() == 0 {
                None
            } else {
                Some(CommandSuffix(suffix))
            };
            Some((e2, SimpleCommand { prefix, word_or_name: Some(w), suffix }))
        },
        None => match prefix {
            Some(pre) => Some((p1, SimpleCommand { prefix: Some(pre), word_or_name: None, suffix: None })),
            None => None,
        },
    }
}

/// The suffix items of a simple command from `pos` (after its name).
fn suffix_items(s: &[char], pos: usize, o: ParserOptions) -> (r: (usize, Vec<CommandPrefixOrSuffixItem>))
    requires
        pos <= s@.len(),
    ensures
        suffix_rest(s@, pos as int, o, Seq::empty()) == (r.0 as int, v_items(r.1@)),
        pos <= r.0 <= s@.len(),
    decreases s@.len() - pos, 4nat,
{
    let mut items: Vec<CommandPrefixOrSuffixItem> = Vec::new();
    let mut cur = pos;
    proof {
        assert(v_items(items@) =~= Seq::<crate::ast::SItem>::empty());
    }
    loop
        invariant
            pos <= cur <= s@.len(),
            suffix_rest(s@, cur as int, o, v_items(items@)) == suffix_rest(s@, pos as int, o, Seq::empty()),
        decreases s@.len() - cur,
    {
        let q = spaces(s, cur);
        match suffix_item(s, q, o) {
            Some((e, it)) => {
                proof {
                    lemma_v_items_push(items@, it);
                }
                items.push(it);
                cur = e;
            },
            None => {
                return (cur, items);
            },
        }
    }
}

/// An item of a command suffix: a redirection, a process substitution or a word.
fn suffix_item(s: &[char], pos: usize, o: ParserOptions) -> (r: Option<(usize, CommandPrefixOrSuffixItem)>)
    requires
        pos <= s@.len(),
    ensures
        r matches Some((e, x)) ==> spec_suffix_item(s@, pos as int, o) == Some((e as int, v_item(x))),
        r is None ==> spec_suffix_item(s@, pos as int, o) is None,
        r matches Some((e, _)) ==> pos < e <= s@.len(),
    decreases s@.len() - pos, 3nat,
{
    match io_redirect(s, pos) {
        Some((e, r)) => {
            return Some((e, CommandPrefixOrSuffixItem::IoRedirect(r)));
        },
        None => {},
    }
    match process_substitution(s, pos, o) {
        Some((e, (k, sub))) => {
            return Some((e, CommandPrefixOrSuffixItem::ProcessSubstitution(k, sub)));
        },
        None => {},
    }
    match word_as_ast(s, pos) {
        Some((e, w)) => Some((e, CommandPrefixOrSuffixItem::Word(w))),
        None => None,
    }
}

} // verus!
