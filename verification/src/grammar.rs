//! The grammar of commands, stated as functions of the input: for each nonterminal,
//! where it ends when it starts at `p`, and what it builds. The executable parsers
//! in the other modules are proved equal to these functions.
//!
//! The nonterminals call each other recursively; where a call starts where another
//! nonterminal ended, the statement checks that the input was advanced, which the
//! parsers always do (it is part of their contracts).

use vstd::prelude::*;
use crate::arith::{lemma_arithmetic_command, spec_arithmetic_command, spec_arithmetic_expression, lemma_arith_scan};
use crate::ast::{
    span, CaseItemPostAction, IoFileRedirectKind, ProcessSubstitutionKind, SAndOr, SAndOrList,
    SCaseClause, SCaseItem, SCommand, SCompoundCommand, SCompoundList, SElseClause, SForClause,
    SArithmeticFor, SFunctionDefinition, SIfClause, SIoRedirect, SItem, SListItem, SPipeline,
    SSimpleCommand, SSubshell, SWhileOrUntil, SWord, SeparatorOperator,
};
use crate::char_parsers::{
    at, blank_run_end, comment_end, lemma_gap_end, lemma_run_end, lemma_spaces, not_newline,
    spaces_end, spec_peek_op3, spec_spaces1,
};
use crate::chars::{is_blank, is_name_char, is_name_start, is_word_char};
use crate::command_parsers::{
    lemma_cmd_prefix, lemma_io_redirect, spec_cmd_prefix, spec_io_redirect, spec_redirect_list,
};
use crate::extended_test_parsers::{lemma_extended_test_command, spec_extended_test_command};
use crate::line_parsers::{
    lemma_linebreak_end, lemma_separators, linebreak_end, spec_newline_list, spec_separator,
    spec_separator_op, spec_sequential_sep,
};
use crate::word_parsers::{
    lemma_keyword, lemma_word, lemma_word_parts_end, spec_bare_word, spec_is_reserved_word, spec_keyword,
    spec_word,
};

verus! {

/// Dialect options. They are accepted and handed down, but this parser has no
/// POSIX or `sh` mode differences: no parse depends on them.
#[derive(Clone, Copy, Debug, PartialEq, Eq, Structural)]
pub struct ParserOptions {
    /// POSIX mode was asked for.
    pub posix_mode: bool,
    /// `sh` mode was asked for.
    pub sh_mode: bool,
}

/// `to` is after `from` and within the input.
pub open spec fn adv(s: Seq<char>, from: int, to: int) -> bool {
    from < to <= s.len()
}

// ---------------------------------------------------------------- names

/// A variable name: a letter or `_`, then letters, digits and `_`.
pub open spec fn spec_is_valid_name(t: Seq<char>) -> bool {
    t.len() > 0 && is_name_start(t[0]) && forall|i: int| 1 <= i < t.len() ==> is_name_char(#[trigger] t[i])
}

/// A function name: not empty, starting with a letter or `_`, not ending with `=`.
pub open spec fn spec_is_valid_fname(t: Seq<char>) -> bool {
    t.len() > 0 && t[t.len() - 1] != '=' && is_name_start(t[0])
}

/// Optional spaces, then a bare word that is a valid variable name.
#[verifier::opaque]
pub open spec fn spec_name(s: Seq<char>, p: int) -> Option<(int, Seq<char>)> {
    let q = spaces_end(s, p);
    match spec_bare_word(s, q) {
        Some(e) => if spec_is_valid_name(s.subrange(q, e)) {
            Some((e, s.subrange(q, e)))
        } else {
            None
        },
        None => None,
    }
}

/// Optional spaces, then a bare word that is a valid function name.
#[verifier::opaque]
pub open spec fn spec_fname(s: Seq<char>, p: int) -> Option<(int, Seq<char>)> {
    let q = spaces_end(s, p);
    match spec_bare_word(s, q) {
        Some(e) => if spec_is_valid_fname(s.subrange(q, e)) {
            Some((e, s.subrange(q, e)))
        } else {
            None
        },
        None => None,
    }
}

/// Optional spaces, then `;;&`, `;&` or `;;` (the whole run of `;`/`&` must be one of
/// these).
#[verifier::opaque]
pub open spec fn spec_case_item_terminator(s: Seq<char>, p: int) -> Option<(int, CaseItemPostAction)> {
    let q = spaces_end(s, p);
    match spec_peek_op3(s, q) {
        Some(e) => {
            let t = s.subrange(q, e);
            if t == seq![';', ';', '&'] {
                Some((e, CaseItemPostAction::ContinueEvaluatingCases))
            } else if t == seq![';', '&'] {
                Some((e, CaseItemPostAction::UnconditionallyExecuteNextCaseItem))
            } else if t == seq![';', ';'] {
                Some((e, CaseItemPostAction::ExitCase))
            } else {
                None
            }
        },
        None => None,
    }
}

/// Words separated by required blanks (`spaces1`), after the first.
pub open spec fn words_rest(s: Seq<char>, cur: int, acc: Seq<SWord>) -> (int, Seq<SWord>)
    decreases s.len() - cur,
{
    if 0 <= cur <= s.len() {
        match spec_spaces1(s, cur) {
            Some(q) => {
                proof {
                    lemma_leaves(s, cur);
                    lemma_leaves(s, q);
                }
                match spec_word(s, q) {
                    Some((e, w)) => words_rest(s, e, acc.push(w)),
                    None => (cur, acc),
                }
            },
            None => (cur, acc),
        }
    } else {
        (cur, acc)
    }
}

/// One or more words separated by required blanks.
#[verifier::opaque]
pub open spec fn spec_words(s: Seq<char>, p: int) -> Option<(int, Seq<SWord>)> {
    match spec_word(s, p) {
        Some((e, w)) => Some(words_rest(s, e, seq![w])),
        None => None,
    }
}

/// Case patterns after the first: each after `|` with optional spaces around it.
pub open spec fn patterns_rest(s: Seq<char>, cur: int, acc: Seq<SWord>) -> (int, Seq<SWord>)
    decreases s.len() - cur,
{
    if 0 <= cur <= s.len() {
        let a = spaces_end(s, cur);
        if at(s, a, '|') {
            proof {
                lemma_leaves(s, cur);
                lemma_leaves(s, a + 1);
                lemma_leaves(s, spaces_end(s, a + 1));
            }
            match spec_word(s, spaces_end(s, a + 1)) {
                Some((e, w)) => patterns_rest(s, e, acc.push(w)),
                None => (cur, acc),
            }
        } else {
            (cur, acc)
        }
    } else {
        (cur, acc)
    }
}

#[verifier::opaque]
pub open spec fn spec_patterns(s: Seq<char>, p: int) -> Option<(int, Seq<SWord>)> {
    match spec_word(s, p) {
        Some((e, w)) => Some(patterns_rest(s, e, seq![w])),
        None => None,
    }
}

/// Bounds of the scanners below the command grammar.
pub proof fn lemma_leaves(s: Seq<char>, p: int)
    requires
        0 <= p <= s.len(),
    ensures
        p <= spaces_end(s, p) <= s.len(),
        p <= linebreak_end(s, p) <= s.len(),
        spec_word(s, p) matches Some((e, _)) ==> p < e <= s.len(),
        spec_spaces1(s, p) matches Some(e) ==> p < e <= s.len(),
        spec_newline_list(s, p) matches Some(e) ==> p < e <= s.len(),
        spec_separator(s, p) matches Some((e, _)) ==> p < e <= s.len(),
        spec_sequential_sep(s, p) matches Some(e) ==> p < e <= s.len(),
        spec_separator_op(s, p) matches Some((e, _)) ==> e == p + 1 <= s.len(),
        spec_io_redirect(s, p) matches Some((e, _)) ==> p < e <= s.len(),
        spec_redirect_list(s, p) matches Some((e, _)) ==> p < e <= s.len(),
        spec_cmd_prefix(s, p) matches Some((e, _)) ==> p < e <= s.len(),
        spec_arithmetic_command(s, p) matches Some((e, _)) ==> p < e <= s.len(),
        spec_extended_test_command(s, p) matches Some((e, _)) ==> p < e <= s.len(),
        p <= spec_arithmetic_expression(s, p).0 <= s.len(),
        spec_name(s, p) matches Some((e, _)) ==> p < e <= s.len(),
        spec_fname(s, p) matches Some((e, _)) ==> p < e <= s.len(),
        spec_keyword(s, p, "if"@) matches Some(e) ==> p < e <= s.len(),
        spec_keyword(s, p, "then"@) matches Some(e) ==> p < e <= s.len(),
        spec_keyword(s, p, "elif"@) matches Some(e) ==> p < e <= s.len(),
        spec_keyword(s, p, "else"@) matches Some(e) ==> p < e <= s.len(),
        spec_keyword(s, p, "fi"@) matches Some(e) ==> p < e <= s.len(),
        spec_keyword(s, p, "while"@) matches Some(e) ==> p < e <= s.len(),
        spec_keyword(s, p, "until"@) matches Some(e) ==> p < e <= s.len(),
        spec_keyword(s, p, "do"@) matches Some(e) ==> p < e <= s.len(),
        spec_keyword(s, p, "done"@) matches Some(e) ==> p < e <= s.len(),
        spec_keyword(s, p, "for"@) matches Some(e) ==> p < e <= s.len(),
        spec_keyword(s, p, "in"@) matches Some(e) ==> p < e <= s.len(),
        spec_keyword(s, p, "case"@) matches Some(e) ==> p < e <= s.len(),
        spec_keyword(s, p, "esac"@) matches Some(e) ==> p < e <= s.len(),
        spec_keyword(s, p, "function"@) matches Some(e) ==> p < e <= s.len(),
{
    reveal(spec_name);
    reveal(spec_fname);
    reveal(spaces_end);
    lemma_spaces(s, p);
    lemma_linebreak_end(s, p);
    lemma_word(s, p);
    lemma_separators(s, p);
    lemma_io_redirect(s, p);
    lemma_cmd_prefix(s, p);
    lemma_arithmetic_command(s, p);
    lemma_extended_test_command(s, p);
    lemma_gap_end(s, p, false);
    let q = spaces_end(s, p);
    lemma_run_end(s, q, |c: char| is_word_char(c));
    reveal_strlit("if");
    reveal_strlit("then");
    reveal_strlit("elif");
    reveal_strlit("else");
    reveal_strlit("fi");
    reveal_strlit("while");
    reveal_strlit("until");
    reveal_strlit("do");
    reveal_strlit("done");
    reveal_strlit("for");
    reveal_strlit("in");
    reveal_strlit("case");
    reveal_strlit("esac");
    reveal_strlit("function");
    lemma_keyword(s, p, "if"@);
    lemma_keyword(s, p, "then"@);
    lemma_keyword(s, p, "elif"@);
    lemma_keyword(s, p, "else"@);
    lemma_keyword(s, p, "fi"@);
    lemma_keyword(s, p, "while"@);
    lemma_keyword(s, p, "until"@);
    lemma_keyword(s, p, "do"@);
    lemma_keyword(s, p, "done"@);
    lemma_keyword(s, p, "for"@);
    lemma_keyword(s, p, "in"@);
    lemma_keyword(s, p, "case"@);
    lemma_keyword(s, p, "esac"@);
    lemma_keyword(s, p, "function"@);
}

// ---------------------------------------------------------------- lists

/// `compound_list`: an optional linebreak, then and-or lists, each ended by a
/// separator (`;`, `&` or newlines; the last may have none).
pub open spec fn spec_compound_list(s: Seq<char>, p: int, o: ParserOptions) -> Option<(int, SCompoundList)>
    decreases s.len() - p, 20nat,
{
    if !(0 <= p <= s.len()) {
        None
    } else {
        proof {
            lemma_leaves(s, p);
        }
        let q = linebreak_end(s, p);
        match spec_and_or(s, q, o) {
            Some((e, ao)) => if adv(s, q, e) {
                list_rest(s, e, o, ao, Seq::empty())
            } else {
                None
            },
            None => None,
        }
    }
}

/// The rest of a compound list after the and-or list `ao`, which ended at `cur`.
pub open spec fn list_rest(
    s: Seq<char>,
    cur: int,
    o: ParserOptions,
    ao: SAndOrList,
    acc: Seq<SListItem>,
) -> Option<(int, SCompoundList)>
    decreases s.len() - cur, 20nat,
{
    if !(0 <= cur <= s.len()) {
        None
    } else {
        proof {
            lemma_leaves(s, cur);
            lemma_leaves(s, spaces_end(s, cur));
        }
        let q = spaces_end(s, cur);
        match spec_separator(s, q) {
            None => Some((q, acc.push(SListItem { ao, sep: SeparatorOperator::Sequence }))),
            Some((e, sep)) => {
                proof {
                    lemma_leaves(s, e);
                }
                let r = spaces_end(s, e);
                let sep = match sep {
                    Some(op) => op,
                    None => SeparatorOperator::Sequence,
                };
                let acc2 = acc.push(SListItem { ao, sep });
                match spec_and_or(s, r, o) {
                    Some((e2, ao2)) => if adv(s, r, e2) {
                        list_rest(s, e2, o, ao2, acc2)
                    } else {
                        None
                    },
                    None => Some((r, acc2)),
                }
            },
        }
    }
}

/// `and_or`: pipelines joined by `&&` or `||` (each operator may be followed by a
/// linebreak).
pub open spec fn spec_and_or(s: Seq<char>, p: int, o: ParserOptions) -> Option<(int, SAndOrList)>
    decreases s.len() - p, 19nat,
{
    if !(0 <= p <= s.len()) {
        None
    } else {
        match spec_pipeline(s, p, o) {
            Some((e, pl)) => if adv(s, p, e) {
                Some(and_or_rest(s, e, o, pl, Seq::empty()))
            } else {
                None
            },
            None => None,
        }
    }
}

pub open spec fn and_or_op(s: Seq<char>, q: int) -> Option<bool> {
    if at(s, q, '&') && at(s, q + 1, '&') {
        Some(true)
    } else if at(s, q, '|') && at(s, q + 1, '|') {
        Some(false)
    } else {
        None
    }
}

pub open spec fn and_or_rest(
    s: Seq<char>,
    cur: int,
    o: ParserOptions,
    first: SPipeline,
    acc: Seq<SAndOr>,
) -> (int, SAndOrList)
    decreases s.len() - cur, 19nat,
{
    if !(0 <= cur <= s.len()) {
        (cur, SAndOrList { first, additional: acc })
    } else {
        proof {
            lemma_leaves(s, cur);
        }
        let q = spaces_end(s, cur);
        match and_or_op(s, q) {
            None => (cur, SAndOrList { first, additional: acc }),
            Some(is_and) => {
                proof {
                    lemma_leaves(s, q + 2);
                }
                let r = linebreak_end(s, q + 2);
                match spec_pipeline(s, r, o) {
                    Some((e, pl)) => if adv(s, r, e) {
                        and_or_rest(
                            s,
                            e,
                            o,
                            first,
                            acc.push(
                                if is_and {
                                    SAndOr::And(pl)
                                } else {
                                    SAndOr::Or(pl)
                                },
                            ),
                        )
                    } else {
                        (cur, SAndOrList { first, additional: acc })
                    },
                    None => (cur, SAndOrList { first, additional: acc }),
                }
            },
        }
    }
}

/// `pipeline`: optional spaces, an optional `!` followed by a blank, then commands
/// joined by `|` (each `|` may be followed by a linebreak).
pub open spec fn spec_pipeline(s: Seq<char>, p: int, o: ParserOptions) -> Option<(int, SPipeline)>
    decreases s.len() - p, 18nat,
{
    if !(0 <= p <= s.len()) {
        None
    } else {
        proof {
            lemma_leaves(s, p);
        }
        let q = spaces_end(s, p);
        let bang = at(s, q, '!') && (at(s, q + 1, ' ') || at(s, q + 1, '\t'));
        proof {
            if bang {
                lemma_leaves(s, q + 1);
            }
        }
        let c = if bang {
            spaces_end(s, q + 1)
        } else {
            q
        };
        match spec_command(s, c, o) {
            Some((e, cmd)) => if adv(s, c, e) {
                Some(pipeline_rest(s, e, o, bang, seq![cmd]))
            } else {
                None
            },
            None => None,
        }
    }
}

pub open spec fn pipeline_rest(
    s: Seq<char>,
    cur: int,
    o: ParserOptions,
    bang: bool,
    acc: Seq<SCommand>,
) -> (int, SPipeline)
    decreases s.len() - cur, 18nat,
{
    if !(0 <= cur <= s.len()) {
        (cur, SPipeline { bang, seq: acc })
    } else {
        proof {
            lemma_leaves(s, cur);
        }
        let q = spaces_end(s, cur);
        if at(s, q, '|') && !at(s, q + 1, '|') {
            proof {
                lemma_leaves(s, q + 1);
                lemma_leaves(s, linebreak_end(s, q + 1));
            }
            let r = spaces_end(s, linebreak_end(s, q + 1));
            match spec_command(s, r, o) {
                Some((e, c)) => if adv(s, r, e) {
                    pipeline_rest(s, e, o, bang, acc.push(c))
                } else {
                    (cur, SPipeline { bang, seq: acc })
                },
                None => (cur, SPipeline { bang, seq: acc }),
            }
        } else {
            (cur, SPipeline { bang, seq: acc })
        }
    }
}

/// `command`: a compound command with optional redirections, a function
/// definition, an extended test, or a simple command, tried in that order.
pub open spec fn spec_command(s: Seq<char>, p: int, o: ParserOptions) -> Option<(int, SCommand)>
    decreases s.len() - p, 17nat,
{
    if !(0 <= p <= s.len()) {
        None
    } else {
        match spec_compound_command(s, p, o) {
            Some((e, cc)) => if adv(s, p, e) {
                match spec_redirect_list(s, spaces_end(s, e)) {
                    Some((e2, rl)) => Some((e2, SCommand::Compound(cc, Some(rl)))),
                    None => Some((e, SCommand::Compound(cc, None))),
                }
            } else {
                None
            },
            None => match spec_function_definition(s, p, o) {
                Some((e, f)) => Some((e, SCommand::Function(f))),
                None => match spec_extended_test_command(s, p) {
                    Some((e, t)) => Some((e, SCommand::ExtendedTest(t))),
                    None => match spec_simple_command(s, p, o) {
                        Some((e, c)) => Some((e, SCommand::Simple(c))),
                        None => None,
                    },
                },
            },
        }
    }
}

// ---------------------------------------------------------------- simple commands

/// `simple_command`: an optional prefix, then a command name that is not a reserved
/// word and its suffix; or the prefix alone.
pub open spec fn spec_simple_command(s: Seq<char>, p: int, o: ParserOptions) -> Option<(int, SSimpleCommand)>
    decreases s.len() - p, 16nat,
{
    if !(0 <= p <= s.len()) {
        None
    } else {
        proof {
            lemma_leaves(s, p);
        }
        let p1 = match spec_cmd_prefix(s, p) {
            Some((e, _)) => e,
            None => p,
        };
        let prefix = match spec_cmd_prefix(s, p) {
            Some((_, items)) => Some(items),
            None => None,
        };
        proof {
            lemma_leaves(s, p1);
        }
        let prefix_only = match prefix {
            Some(pre) => Some((p1, SSimpleCommand { prefix: Some(pre), word_or_name: None, suffix: None })),
            None => None,
        };
        match spec_word(s, p1) {
            Some((e, w)) => if !spec_is_reserved_word(w.value) {
                let (e2, suffix) = suffix_rest(s, e, o, Seq::empty());
                Some(
                    (
                        e2,
                        SSimpleCommand {
                            prefix,
                            word_or_name: Some(w),
                            suffix: if suffix.len() == 0 {
                                None
                            } else {
                                Some(suffix)
                            },
                        },
                    ),
                )
            } else {
                prefix_only
            },
            None => prefix_only,
        }
    }
}

/// The suffix of a simple command: items after optional spaces.
pub open spec fn suffix_rest(s: Seq<char>, cur: int, o: ParserOptions, acc: Seq<SItem>) -> (int, Seq<SItem>)
    decreases s.len() - cur, 3nat,
{
    if !(0 <= cur <= s.len()) {
        (cur, acc)
    } else {
        proof {
            lemma_leaves(s, cur);
        }
        match spec_suffix_item(s, spaces_end(s, cur), o) {
            Some((e, it)) => if adv(s, cur, e) {
                suffix_rest(s, e, o, acc.push(it))
            } else {
                (cur, acc)
            },
            None => (cur, acc),
        }
    }
}

/// An item of a command suffix: a redirection, a process substitution or a word.
pub open spec fn spec_suffix_item(s: Seq<char>, p: int, o: ParserOptions) -> Option<(int, SItem)>
    decreases s.len() - p, 2nat,
{
    if !(0 <= p <= s.len()) {
        None
    } else {
        match spec_io_redirect(s, p) {
            Some((e, r)) => Some((e, SItem::IoRedirect(r))),
            None => match spec_process_substitution(s, p, o) {
                Some((e, (k, sub))) => Some((e, SItem::ProcessSubstitution(k, sub))),
                None => match spec_word(s, p) {
                    Some((e, w)) => Some((e, SItem::Word(w))),
                    None => None,
                },
            },
        }
    }
}

/// The body of a parenthesised list: `(`, spaces, a linebreak, the list, a linebreak,
/// spaces and `)`. Answers the end and the list.
pub open spec fn paren_list(s: Seq<char>, p: int, o: ParserOptions) -> Option<(int, SCompoundList)>
    decreases s.len() - p, 1nat,
{
    if !(0 <= p <= s.len()) || !at(s, p, '(') {
        None
    } else {
        proof {
            lemma_leaves(s, p + 1);
            lemma_leaves(s, spaces_end(s, p + 1));
        }
        let q = linebreak_end(s, spaces_end(s, p + 1));
        match spec_compound_list(s, q, o) {
            Some((e, l)) => if adv(s, q, e) {
                proof {
                    lemma_leaves(s, e);
                    lemma_leaves(s, linebreak_end(s, e));
                }
                let r = spaces_end(s, linebreak_end(s, e));
                if at(s, r, ')') {
                    Some((r + 1, l))
                } else {
                    None
                }
            } else {
                None
            },
            None => None,
        }
    }
}

/// `<( list )` or `>( list )`.
pub open spec fn spec_process_substitution(s: Seq<char>, p: int, o: ParserOptions) -> Option<
    (int, (ProcessSubstitutionKind, SSubshell)),
>
    decreases s.len() - p, 1nat,
{
    if !(0 <= p < s.len()) {
        None
    } else {
        let kind = if s[p] == '<' {
            Some(ProcessSubstitutionKind::Read)
        } else if s[p] == '>' {
            Some(ProcessSubstitutionKind::Write)
        } else {
            None
        };
        match kind {
            Some(k) => match paren_list(s, p + 1, o) {
                Some((e, l)) => Some((e, (k, SSubshell { list: l, loc: span(p, e) }))),
                None => None,
            },
            None => None,
        }
    }
}

// ---------------------------------------------------------------- compound commands

/// `compound_command`: optional spaces, then, by the first character, a brace group,
/// an arithmetic command or subshell, a `for` loop, a `case`, an `if`, a `while` or
/// an `until`.
pub open spec fn spec_compound_command(s: Seq<char>, p: int, o: ParserOptions) -> Option<(int, SCompoundCommand)>
    decreases s.len() - p, 16nat,
{
    if !(0 <= p <= s.len()) {
        None
    } else {
        proof {
            lemma_leaves(s, p);
        }
        let q = spaces_end(s, p);
        if q >= s.len() {
            None
        } else if s[q] == '{' {
            match spec_brace_group(s, q, o) {
                Some((e, b)) => Some((e, SCompoundCommand::BraceGroup(b))),
                None => None,
            }
        } else if s[q] == '(' {
            spec_paren_compound(s, q, o)
        } else if s[q] == 'f' {
            spec_for_or_arithmetic_for(s, q, o)
        } else if s[q] == 'c' {
            match spec_case_clause(s, q, o) {
                Some((e, c)) => Some((e, SCompoundCommand::CaseClause(c))),
                None => None,
            }
        } else if s[q] == 'i' {
            match spec_if_clause(s, q, o) {
                Some((e, c)) => Some((e, SCompoundCommand::IfClause(c))),
                None => None,
            }
        } else if s[q] == 'w' {
            match spec_while_clause(s, q, o, "while"@) {
                Some((e, c)) => Some((e, SCompoundCommand::WhileClause(c))),
                None => None,
            }
        } else if s[q] == 'u' {
            match spec_while_clause(s, q, o, "until"@) {
                Some((e, c)) => Some((e, SCompoundCommand::UntilClause(c))),
                None => None,
            }
        } else {
            None
        }
    }
}

/// `{`, at least one blank or a newline, the list, a linebreak, spaces, `}`.
pub open spec fn spec_brace_group(s: Seq<char>, p: int, o: ParserOptions) -> Option<(int, SSubshell)>
    decreases s.len() - p, 15nat,
{
    if !(0 <= p <= s.len()) || !at(s, p, '{') {
        None
    } else {
        proof {
            lemma_leaves(s, p + 1);
        }
        let q = match spec_spaces1(s, p + 1) {
            Some(e) => Some(e),
            None => if at(s, p + 1, '\n') {
                Some(p + 2)
            } else {
                None
            },
        };
        match q {
            None => None,
            Some(q) => match spec_compound_list(s, q, o) {
                Some((e, l)) => if adv(s, q, e) {
                    proof {
                        lemma_leaves(s, e);
                        lemma_leaves(s, linebreak_end(s, e));
                    }
                    let r = spaces_end(s, linebreak_end(s, e));
                    if at(s, r, '}') {
                        Some((r + 1, SSubshell { list: l, loc: span(p, r + 1) }))
                    } else {
                        None
                    }
                } else {
                    None
                },
                None => None,
            },
        }
    }
}

/// `( list )`.
pub open spec fn spec_subshell(s: Seq<char>, p: int, o: ParserOptions) -> Option<(int, SSubshell)>
    decreases s.len() - p, 14nat,
{
    if !(0 <= p <= s.len()) {
        None
    } else {
        match paren_list(s, p, o) {
            Some((e, l)) => Some((e, SSubshell { list: l, loc: span(p, e) })),
            None => None,
        }
    }
}

/// An arithmetic command `(( ))`, or failing that a subshell.
pub open spec fn spec_paren_compound(s: Seq<char>, p: int, o: ParserOptions) -> Option<(int, SCompoundCommand)>
    decreases s.len() - p, 15nat,
{
    if !(0 <= p <= s.len()) {
        None
    } else if spec_arithmetic_command(s, p) is Some {
        match spec_arithmetic_command(s, p) {
            Some((e, a)) => Some((e, SCompoundCommand::Arithmetic(a))),
            None => None,
        }
    } else {
        match spec_subshell(s, p, o) {
            Some((e, b)) => Some((e, SCompoundCommand::Subshell(b))),
            None => None,
        }
    }
}

/// `do list done`.
pub open spec fn spec_do_group(s: Seq<char>, p: int, o: ParserOptions) -> Option<(int, SSubshell)>
    decreases s.len() - p, 3nat,
{
    if !(0 <= p <= s.len()) {
        None
    } else {
        proof {
            lemma_leaves(s, p);
        }
        match spec_keyword(s, p, "do"@) {
            Some(q) => match spec_compound_list(s, q, o) {
                Some((e, l)) => if adv(s, q, e) {
                    match spec_keyword(s, e, "done"@) {
                        Some(r) => Some((r, SSubshell { list: l, loc: span(p, r) })),
                        None => None,
                    }
                } else {
                    None
                },
                None => None,
            },
            None => None,
        }
    }
}

/// `elif list then list`.
pub open spec fn spec_elif_clause(s: Seq<char>, p: int, o: ParserOptions) -> Option<(int, SElseClause)>
    decreases s.len() - p, 2nat,
{
    if !(0 <= p <= s.len()) {
        None
    } else {
        proof {
            lemma_leaves(s, p);
        }
        match spec_keyword(s, p, "elif"@) {
            Some(q) => match spec_compound_list(s, q, o) {
                Some((e, c)) => if adv(s, q, e) {
                    proof {
                        lemma_leaves(s, e);
                    }
                    match spec_keyword(s, e, "then"@) {
                        Some(q2) => match spec_compound_list(s, q2, o) {
                            Some((e2, b)) => Some((e2, SElseClause { condition: Some(c), body: b })),
                            None => None,
                        },
                        None => None,
                    }
                } else {
                    None
                },
                None => None,
            },
            None => None,
        }
    }
}

/// `else list`.
pub open spec fn spec_else_clause(s: Seq<char>, p: int, o: ParserOptions) -> Option<(int, SElseClause)>
    decreases s.len() - p, 2nat,
{
    if !(0 <= p <= s.len()) {
        None
    } else {
        proof {
            lemma_leaves(s, p);
        }
        match spec_keyword(s, p, "else"@) {
            Some(q) => match spec_compound_list(s, q, o) {
                Some((e, b)) => Some((e, SElseClause { condition: None, body: b })),
                None => None,
            },
            None => None,
        }
    }
}

/// Zero or more `elif` clauses.
pub open spec fn elif_rest(s: Seq<char>, cur: int, o: ParserOptions, acc: Seq<SElseClause>) -> (int, Seq<SElseClause>)
    decreases s.len() - cur, 3nat,
{
    if !(0 <= cur <= s.len()) {
        (cur, acc)
    } else {
        match spec_elif_clause(s, cur, o) {
            Some((e, c)) => if adv(s, cur, e) {
                elif_rest(s, e, o, acc.push(c))
            } else {
                (cur, acc)
            },
            None => (cur, acc),
        }
    }
}

/// `if list then list [elif list then list]* [else list] fi`.
pub open spec fn spec_if_clause(s: Seq<char>, p: int, o: ParserOptions) -> Option<(int, SIfClause)>
    decreases s.len() - p, 15nat,
{
    if !(0 <= p <= s.len()) {
        None
    } else {
        proof {
            lemma_leaves(s, p);
        }
        match spec_keyword(s, p, "if"@) {
            None => None,
            Some(q) => match spec_compound_list(s, q, o) {
                None => None,
                Some((e1, cond)) => if !adv(s, q, e1) {
                    None
                } else {
                    proof {
                        lemma_leaves(s, e1);
                    }
                    match spec_keyword(s, e1, "then"@) {
                        None => None,
                        Some(q2) => match spec_compound_list(s, q2, o) {
                            None => None,
                            Some((e2, body)) => if !adv(s, q2, e2) {
                                None
                            } else {
                                let (e3, elifs) = elif_rest(s, e2, o, Seq::empty());
                                if !(e2 <= e3 <= s.len()) {
                                    None
                                } else {
                                    let (e4, elses) = match spec_else_clause(s, e3, o) {
                                        Some((e, c)) => (e, elifs.push(c)),
                                        None => (e3, elifs),
                                    };
                                    match spec_keyword(s, e4, "fi"@) {
                                        Some(r) => Some(
                                            (
                                                r,
                                                SIfClause {
                                                    condition: cond,
                                                    then_body: body,
                                                    elses: if elses.len() == 0 {
                                                        None
                                                    } else {
                                                        Some(elses)
                                                    },
                                                    loc: span(p, r),
                                                },
                                            ),
                                        ),
                                        None => None,
                                    }
                                }
                            },
                        },
                    }
                },
            },
        }
    }
}

/// `while list do-group` (or `until`, as `kw` says).
pub open spec fn spec_while_clause(s: Seq<char>, p: int, o: ParserOptions, kw: Seq<char>) -> Option<(int, SWhileOrUntil)>
    decreases s.len() - p, 15nat,
{
    if !(0 <= p <= s.len()) || !(kw == "while"@ || kw == "until"@) {
        None
    } else {
        proof {
            lemma_leaves(s, p);
        }
        match spec_keyword(s, p, kw) {
            Some(q) => match spec_compound_list(s, q, o) {
                Some((e, cond)) => if adv(s, q, e) {
                    match spec_do_group(s, e, o) {
                        Some((r, body)) => Some((r, SWhileOrUntil { condition: cond, body, loc: span(p, r) })),
                        None => None,
                    }
                } else {
                    None
                },
                None => None,
            },
            None => None,
        }
    }
}

/// `for name [linebreak] [in [words]] sequential-separator do-group`.
pub open spec fn spec_for_clause(s: Seq<char>, p: int, o: ParserOptions) -> Option<(int, SForClause)>
    decreases s.len() - p, 14nat,
{
    if !(0 <= p <= s.len()) {
        None
    } else {
        proof {
            lemma_leaves(s, p);
        }
        match spec_keyword(s, p, "for"@) {
            None => None,
            Some(q) => {
                proof {
                    lemma_leaves(s, q);
                }
                match spec_name(s, q) {
                    None => None,
                    Some((e1, var)) => {
                        proof {
                            lemma_leaves(s, e1);
                        }
                        let e2 = linebreak_end(s, e1);
                        proof {
                            lemma_leaves(s, e2);
                        }
                        let (e3, values) = match spec_keyword(s, e2, "in"@) {
                            Some(k) => match spec_words(s, spaces_end(s, k)) {
                                Some((e, ws)) => (e, Some(ws)),
                                None => (k, None),
                            },
                            None => (e2, None),
                        };
                        if !(p < e3 <= s.len()) {
                            None
                        } else {
                            match spec_sequential_sep(s, e3) {
                                None => None,
                                Some(e4) => {
                                    proof {
                                        lemma_leaves(s, e3);
                                    }
                                    match spec_do_group(s, e4, o) {
                                        Some((r, body)) => Some(
                                            (
                                                r,
                                                SForClause {
                                                    variable_name: var,
                                                    values,
                                                    body,
                                                    loc: span(p, r),
                                                },
                                            ),
                                        ),
                                        None => None,
                                    }
                                },
                            }
                        }
                    },
                }
            },
        }
    }
}

/// The body of an arithmetic `for`: a sequential separator and a do group, a do
/// group, or a brace group.
pub open spec fn spec_arithmetic_for_body(s: Seq<char>, p: int, o: ParserOptions) -> Option<(int, SSubshell)>
    decreases s.len() - p, 18nat,
{
    if !(0 <= p <= s.len()) {
        None
    } else {
        proof {
            lemma_leaves(s, p);
        }
        match spec_sequential_sep(s, p) {
            Some(q) => match spec_do_group(s, q, o) {
                Some(r) => Some(r),
                None => spec_do_or_brace(s, p, o),
            },
            None => spec_do_or_brace(s, p, o),
        }
    }
}

pub open spec fn spec_do_or_brace(s: Seq<char>, p: int, o: ParserOptions) -> Option<(int, SSubshell)>
    decreases s.len() - p, 17nat,
{
    if !(0 <= p <= s.len()) {
        None
    } else {
        match spec_do_group(s, p, o) {
            Some(r) => Some(r),
            None => spec_brace_group(s, p, o),
        }
    }
}

/// The header of an arithmetic `for` from `p`: `for`, spaces, `(`, spaces, `(`, three
/// expressions separated by `;` (spaces before each `;`), spaces, `)`, `)`. Answers
/// the end and the three expressions.
#[verifier::opaque]
pub open spec fn arith_for_header(s: Seq<char>, p: int) -> Option<(int, (Seq<char>, Seq<char>, Seq<char>))> {
    match spec_keyword(s, p, "for"@) {
        None => None,
        Some(q) => {
            let a = spaces_end(s, q);
            let b = spaces_end(s, a + 1);
            if !(at(s, a, '(') && at(s, b, '(')) {
                None
            } else {
                let (e1, init) = spec_arithmetic_expression(s, b + 1);
                let c1 = spaces_end(s, e1);
                if !at(s, c1, ';') {
                    None
                } else {
                    let (e2, cond) = spec_arithmetic_expression(s, c1 + 1);
                    let c2 = spaces_end(s, e2);
                    if !at(s, c2, ';') {
                        None
                    } else {
                        let (e3, upd) = spec_arithmetic_expression(s, c2 + 1);
                        let c3 = spaces_end(s, e3);
                        if at(s, c3, ')') && at(s, c3 + 1, ')') {
                            Some((c3 + 2, (init, cond, upd)))
                        } else {
                            None
                        }
                    }
                }
            }
        },
    }
}

pub proof fn lemma_arith_for_header(s: Seq<char>, p: int)
    requires
        0 <= p <= s.len(),
    ensures
        arith_for_header(s, p) matches Some((e, _)) ==> p < e <= s.len(),
{
    reveal(arith_for_header);
    lemma_leaves(s, p);
    if let Some(q) = spec_keyword(s, p, "for"@) {
        lemma_leaves(s, q);
        let a = spaces_end(s, q);
        if a < s.len() {
            lemma_leaves(s, a + 1);
            let b = spaces_end(s, a + 1);
            if b < s.len() {
                lemma_leaves(s, b + 1);
                let e1 = spec_arithmetic_expression(s, b + 1).0;
                lemma_leaves(s, e1);
                let c1 = spaces_end(s, e1);
                if c1 < s.len() {
                    lemma_leaves(s, c1 + 1);
                    let e2 = spec_arithmetic_expression(s, c1 + 1).0;
                    lemma_leaves(s, e2);
                    let c2 = spaces_end(s, e2);
                    if c2 < s.len() {
                        lemma_leaves(s, c2 + 1);
                        let e3 = spec_arithmetic_expression(s, c2 + 1).0;
                        lemma_leaves(s, e3);
                    }
                }
            }
        }
    }
}

/// `for (( init; cond; update )) body`.
pub open spec fn spec_arithmetic_for_clause(s: Seq<char>, p: int, o: ParserOptions) -> Option<(int, SArithmeticFor)>
    decreases s.len() - p, 14nat,
{
    if !(0 <= p <= s.len()) {
        None
    } else {
        proof {
            lemma_arith_for_header(s, p);
        }
        match arith_for_header(s, p) {
            None => None,
            Some((h, (init, cond, upd))) => match spec_arithmetic_for_body(s, h, o) {
                Some((r, body)) => Some(
                    (
                        r,
                        SArithmeticFor {
                            initializer: Some(init),
                            condition: Some(cond),
                            updater: Some(upd),
                            body,
                            loc: span(p, r),
                        },
                    ),
                ),
                None => None,
            },
        }
    }
}

/// An arithmetic `for`, or failing that a `for` loop.
pub open spec fn spec_for_or_arithmetic_for(s: Seq<char>, p: int, o: ParserOptions) -> Option<(int, SCompoundCommand)>
    decreases s.len() - p, 15nat,
{
    if !(0 <= p <= s.len()) {
        None
    } else if spec_arithmetic_for_clause(s, p, o) is Some {
        match spec_arithmetic_for_clause(s, p, o) {
            Some((e, f)) => Some((e, SCompoundCommand::ArithmeticForClause(f))),
            None => None,
        }
    } else {
        match spec_for_clause(s, p, o) {
            Some((e, f)) => Some((e, SCompoundCommand::ForClause(f))),
            None => None,
        }
    }
}

/// `case word [linebreak] in [linebreak] [items] esac`.
pub open spec fn spec_case_clause(s: Seq<char>, p: int, o: ParserOptions) -> Option<(int, SCaseClause)>
    decreases s.len() - p, 15nat,
{
    if !(0 <= p <= s.len()) {
        None
    } else {
        proof {
            lemma_leaves(s, p);
        }
        match spec_keyword(s, p, "case"@) {
            None => None,
            Some(q) => {
                proof {
                    lemma_leaves(s, q);
                    lemma_leaves(s, spaces_end(s, q));
                }
                match spec_word(s, spaces_end(s, q)) {
                    None => None,
                    Some((e1, w)) => {
                        proof {
                            lemma_leaves(s, e1);
                        }
                        match spec_keyword(s, linebreak_end(s, e1), "in"@) {
                            None => None,
                            Some(k) => {
                                proof {
                                    lemma_leaves(s, linebreak_end(s, e1));
                                    lemma_leaves(s, k);
                                }
                                let e3 = linebreak_end(s, k);
                                let (e4, items) = match spec_case_list(s, e3, o) {
                                    Some((e, items)) => (e, items),
                                    None => (e3, Seq::empty()),
                                };
                                match spec_keyword(s, spaces_end(s, e4), "esac"@) {
                                    Some(r) => Some((r, SCaseClause { value: w, cases: items, loc: span(p, r) })),
                                    None => None,
                                }
                            },
                        }
                    },
                }
            },
        }
    }
}

/// Case items up to `esac` (which is looked at, not consumed); at least one.
pub open spec fn spec_case_list(s: Seq<char>, p: int, o: ParserOptions) -> Option<(int, Seq<SCaseItem>)>
    decreases s.len() - p, 3nat,
{
    if !(0 <= p <= s.len()) {
        None
    } else {
        let (e, items) = case_list_rest(s, p, o, Seq::empty());
        if items.len() == 0 {
            None
        } else {
            Some((e, items))
        }
    }
}

pub open spec fn case_list_rest(s: Seq<char>, cur: int, o: ParserOptions, acc: Seq<SCaseItem>) -> (int, Seq<SCaseItem>)
    decreases s.len() - cur, 2nat,
{
    if !(0 <= cur <= s.len()) {
        (cur, acc)
    } else if spec_keyword(s, spaces_end(s, cur), "esac"@) is Some {
        (cur, acc)
    } else {
        match spec_case_item(s, cur, o) {
            Some((e, it)) => if adv(s, cur, e) {
                case_list_rest(s, e, o, acc.push(it))
            } else {
                (cur, acc)
            },
            None => (case_item_stop(s, cur), acc),
        }
    }
}

/// Where a case item that fails stops: after the blanks, the optional `(`, more
/// blanks and the patterns it read (with the blanks after them). A failed item does
/// not give back what it consumed, so the list ends there.
pub open spec fn case_item_stop(s: Seq<char>, p: int) -> int {
    let q = spaces_end(s, p);
    let q1 = if at(s, q, '(') {
        q + 1
    } else {
        q
    };
    let r = spaces_end(s, q1);
    match spec_patterns(s, r) {
        Some((e1, _)) => spaces_end(s, e1),
        None => r,
    }
}

pub proof fn lemma_case_item_stop(s: Seq<char>, p: int)
    requires
        0 <= p <= s.len(),
    ensures
        p <= case_item_stop(s, p) <= s.len(),
{
    lemma_leaves(s, p);
    let q = spaces_end(s, p);
    lemma_leaves(s, q);
    let q1 = if at(s, q, '(') {
        q + 1
    } else {
        q
    };
    lemma_leaves(s, q1);
    let r = spaces_end(s, q1);
    lemma_patterns(s, r);
    if let Some((e1, _)) = spec_patterns(s, r) {
        lemma_leaves(s, e1);
    }
}

/// `[(] pattern [| pattern]* ) linebreak [list] [terminator] linebreak`; the
/// terminator defaults to `;;`.
pub open spec fn spec_case_item(s: Seq<char>, p: int, o: ParserOptions) -> Option<(int, SCaseItem)>
    decreases s.len() - p, 1nat,
{
    if !(0 <= p <= s.len()) {
        None
    } else {
        proof {
            lemma_leaves(s, p);
        }
        let q = spaces_end(s, p);
        let q1 = if at(s, q, '(') {
            q + 1
        } else {
            q
        };
        proof {
            lemma_leaves(s, q1);
        }
        match spec_patterns(s, spaces_end(s, q1)) {
            None => None,
            Some((e1, patterns)) => {
                proof {
                    lemma_patterns(s, spaces_end(s, q1));
                    lemma_leaves(s, e1);
                }
                let e2 = spaces_end(s, e1);
                if !at(s, e2, ')') {
                    None
                } else {
                    proof {
                        lemma_leaves(s, e2 + 1);
                    }
                    let e3 = linebreak_end(s, e2 + 1);
                    let (e4, cmd) = match spec_compound_list(s, e3, o) {
                        Some((e, l)) => (e, Some(l)),
                        None => (e3, None),
                    };
                    let (e5, post) = match spec_case_item_terminator(s, e4) {
                        Some((e, a)) => (e, a),
                        None => (e4, CaseItemPostAction::ExitCase),
                    };
                    Some(
                        (
                            linebreak_end(s, e5),
                            SCaseItem { patterns, cmd, post_action: post, loc: Some(span(q, e5)) },
                        ),
                    )
                }
            },
        }
    }
}

pub proof fn lemma_patterns_rest(s: Seq<char>, cur: int, acc: Seq<SWord>)
    requires
        0 <= cur <= s.len(),
    ensures
        cur <= patterns_rest(s, cur, acc).0 <= s.len(),
    decreases s.len() - cur,
{
    lemma_leaves(s, cur);
    let a = spaces_end(s, cur);
    if at(s, a, '|') {
        lemma_leaves(s, a + 1);
        lemma_leaves(s, spaces_end(s, a + 1));
        if let Some((e, w)) = spec_word(s, spaces_end(s, a + 1)) {
            lemma_patterns_rest(s, e, acc.push(w));
        }
    }
}

pub proof fn lemma_patterns(s: Seq<char>, p: int)
    requires
        0 <= p <= s.len(),
    ensures
        spec_patterns(s, p) matches Some((e, _)) ==> p < e <= s.len(),
{
    reveal(spec_patterns);
    lemma_leaves(s, p);
    if let Some((e, w)) = spec_word(s, p) {
        lemma_patterns_rest(s, e, seq![w]);
    }
}

pub proof fn lemma_words_rest(s: Seq<char>, cur: int, acc: Seq<SWord>)
    requires
        0 <= cur <= s.len(),
    ensures
        cur <= words_rest(s, cur, acc).0 <= s.len(),
    decreases s.len() - cur,
{
    lemma_leaves(s, cur);
    if let Some(q) = spec_spaces1(s, cur) {
        lemma_leaves(s, q);
        if let Some((e, w)) = spec_word(s, q) {
            lemma_words_rest(s, e, acc.push(w));
        }
    }
}

// ---------------------------------------------------------------- functions

/// `[function] name [()] linebreak body`: without the keyword, the parentheses are
/// required and the name may not be a reserved word.
pub open spec fn spec_function_definition(s: Seq<char>, p: int, o: ParserOptions) -> Option<(int, SFunctionDefinition)>
    decreases s.len() - p, 16nat,
{
    if !(0 <= p <= s.len()) {
        None
    } else {
        proof {
            lemma_leaves(s, p);
        }
        let has_kw = spec_keyword(s, p, "function"@) is Some;
        let q = match spec_keyword(s, p, "function"@) {
            Some(e) => e,
            None => p,
        };
        proof {
            lemma_leaves(s, q);
        }
        match spec_fname(s, q) {
            None => None,
            Some((e1, name)) => if !has_kw && spec_is_reserved_word(name) {
                None
            } else {
                proof {
                    lemma_leaves(s, e1);
                }
                let e2 = spaces_end(s, e1);
                let parens = if at(s, e2, '(') {
                    let a = spaces_end(s, e2 + 1);
                    if at(s, a, ')') {
                        Some(Some(a + 1))
                    } else {
                        None
                    }
                } else {
                    Some(None)
                };
                match parens {
                    None => None,
                    Some(close) => {
                        let has_parens = close is Some;
                        let e3 = match close {
                            Some(e) => e,
                            None => e2,
                        };
                        if !has_kw && !has_parens {
                            None
                        } else if !(e1 <= e3 <= s.len()) {
                            None
                        } else {
                            proof {
                                lemma_leaves(s, e3);
                            }
                            match spec_function_body(s, linebreak_end(s, e3), o) {
                                Some((r, (cc, redirects))) => Some(
                                    (
                                        r,
                                        SFunctionDefinition {
                                            fname: SWord { value: name, loc: Some(span(q, e1)) },
                                            body: cc,
                                            redirects,
                                        },
                                    ),
                                ),
                                None => None,
                            }
                        }
                    },
                }
            },
        }
    }
}

/// A compound command, then optional spaces and redirections.
pub open spec fn spec_function_body(s: Seq<char>, p: int, o: ParserOptions) -> Option<
    (int, (SCompoundCommand, Option<Seq<SIoRedirect>>)),
>
    decreases s.len() - p, 17nat,
{
    if !(0 <= p <= s.len()) {
        None
    } else {
        match spec_compound_command(s, p, o) {
            Some((e, cc)) => if adv(s, p, e) {
                match spec_redirect_list(s, spaces_end(s, e)) {
                    Some((e2, rl)) => Some((e2, (cc, Some(rl)))),
                    None => Some((e, (cc, None))),
                }
            } else {
                None
            },
            None => None,
        }
    }
}

} // verus!
