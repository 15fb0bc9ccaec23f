//! Control flow: `if`, `while`, `until`, `for`, arithmetic `for`, and `case`.

use vstd::prelude::*;
use crate::arith::arithmetic_expression;
use crate::ast::{
    lemma_v_case_items_push, lemma_v_elses_push, lemma_view_words_push, v_arith_for, v_case,
    v_case_item, v_case_items, v_do, v_else, v_elses, v_for, v_if, v_compound, v_list, v_opt_list,
    view_words, ArithmeticForClauseCommand, CaseClauseCommand, CaseItem, CaseItemPostAction,
    CompoundCommand, DoGroupCommand, ElseClause, ForClauseCommand, IfClauseCommand, SourceSpan,
    WhileOrUntilClauseCommand, Word,
};
use crate::char_parsers::{peek_op3, spaces, spaces1};
use crate::compound_parsers::{brace_group, compound_list, name};
use crate::grammar::{
    arith_for_header, case_item_stop, case_list_rest, lemma_case_item_stop, elif_rest, patterns_rest, spec_arithmetic_for_body,
    spec_arithmetic_for_clause, spec_case_clause, spec_case_item, spec_case_item_terminator,
    spec_case_list, spec_elif_clause, spec_else_clause, spec_for_clause,
    spec_for_or_arithmetic_for, spec_if_clause, spec_patterns, spec_while_clause, spec_words,
    words_rest, ParserOptions,
};
use crate::line_parsers::{linebreak, sequential_sep};
use crate::word_parsers::{keyword, text_eq, word_as_ast};

pub use crate::arith::{arithmetic_command, normalize_arithmetic_expr};
pub use crate::compound_parsers::do_group;

verus! {

/// An `elif` clause: `elif list then list`.
fn elif_clause(s: &[char], pos: usize, o: ParserOptions) -> (r: Option<(usize, ElseClause)>)
    requires
        pos <= s@.len(),
    ensures
        r matches Some((e, x)) ==> spec_elif_clause(s@, pos as int, o) == Some((e as int, v_else(x))),
        r is None ==> spec_elif_clause(s@, pos as int, o) is None,
        r matches Some((e, _)) ==> pos < e <= s@.len(),
    decreases s@.len() - pos, 2nat,
{
    proof {
        reveal_strlit("elif");
        reveal_strlit("then");
    }
    let q = match keyword(s, pos, "elif") {
        Some(q) => q,
        None => {
            return None;
        },
    };
    let (e, condition) = match compound_list(s, q, o) {
        Some(x) => x,
        None => {
            return None;
        },
    };
    let q2 = match keyword(s, e, "then") {
        Some(q) => q,
        None => {
            return None;
        },
    };
    match compound_list(s, q2, o) {
        Some((e2, body)) => Some((e2, ElseClause { condition: Some(condition), body })),
        None => None,
    }
}

/// The final `else` clause: `else list`.
#[verifier::rlimit(100)]
fn else_clause(s: &[char], pos: usize, o: ParserOptions) -> (r: Option<(usize, ElseClause)>)
    requires
        pos <= s@.len(),
    ensures
        r matches Some((e, x)) ==> spec_else_clause(s@, pos as int, o) == Some((e as int, v_else(x))),
        r is None ==> spec_else_clause(s@, pos as int, o) is None,
        r matches Some((e, _)) ==> pos < e <= s@.len(),
    decreases s@.len() - pos, 2nat,
{
    proof {
        reveal_strlit("else");
    }
    let q = match keyword(s, pos, "else") {
        Some(q) => q,
        None => {
            return None;
        },
    };
    match compound_list(s, q, o) {
        Some((e, body)) => Some((e, ElseClause { condition: None, body })),
        None => None,
    }
}

/// Zero or more `elif` clauses from `pos`.
fn elif_clauses(s: &[char], pos: usize, o: ParserOptions) -> (r: (usize, Vec<ElseClause>))
    requires
        pos <= s@.len(),
    ensures
        elif_rest(s@, pos as int, o, Seq::empty()) == (r.0 as int, v_elses(r.1@)),
        pos <= r.0 <= s@.len(),
    decreases s@.len() - pos, 3nat,
{
    let mut items: Vec<ElseClause> = Vec::new();
    let mut cur = pos;
    proof {
        assert(v_elses(items@) =~= Seq::<crate::ast::SElseClause>::empty());
    }
    loop
        invariant
            pos <= cur <= s@.len(),
            elif_rest(s@, cur as int, o, v_elses(items@)) == elif_rest(s@, pos as int, o, Seq::empty()),
        decreases s@.len() - cur,
    {
        match elif_clause(s, cur, o) {
            Some((e, c)) => {
                proof {
                    lemma_v_elses_push(items@, c);
                }
                items.push(c);
                cur = e;
            },
            None => {
                return (cur, items);
            },
        }
    }
}

/// An if clause: `if list then list [elif list then list]* [else list] fi`.
pub fn if_clause(s: &[char], pos: usize, o: ParserOptions) -> (r: Option<(usize, IfClauseCommand)>)
    requires
        pos <= s@.len(),
    ensures
        r matches Some((e, x)) ==> spec_if_clause(s@, pos as int, o) == Some((e as int, v_if(x))),
        r is None ==> spec_if_clause(s@, pos as int, o) is None,
        r matches Some((e, _)) ==> pos < e <= s@.len(),
    decreases s@.len() - pos, 15nat,
{
    proof {
        reveal_strlit("if");
        reveal_strlit("then");
        reveal_strlit("fi");
    }
    let q = match keyword(s, pos, "if") {
        Some(q) => q,
        None => {
            return None;
        },
    };
    let (e1, condition) = match compound_list(s, q, o) {
        Some(x) => x,
        None => {
            return None;
        },
    };
    let q2 = match keyword(s, e1, "then") {
        Some(q) => q,
        None => {
            return None;
        },
    };
    let (e2, then_body) = match compound_list(s, q2, o) {
        Some(x) => x,
        None => {
            return None;
        },
    };
    let (e3, mut elses) = elif_clauses(s, e2, o);
    let e4 = match else_clause(s, e3, o) {
        Some((e, c)) => {
            proof {
                lemma_v_elses_push(elses@, c);
            }
            elses.push(c);
            e
        },
        None => e3,
    };
    let r = match keyword(s, e4, "fi") {
        Some(r) => r,
        None => {
            return None;
        },
    };
    let elses = if elses.len() == 0 {
        None
    } else {
        Some(elses)
    };
    Some((r, IfClauseCommand { condition, then_body, elses, loc: SourceSpan { start: pos, end: r } }))
}

fn while_or_until(s: &[char], pos: usize, o: ParserOptions, kw: &str) -> (r: Option<
    (usize, WhileOrUntilClauseCommand),
>)
    requires
        pos <= s@.len(),
        kw@ == "while"@ || kw@ == "until"@,
    ensures
        r matches Some((e, x)) ==> spec_while_clause(s@, pos as int, o, kw@) == Some(
            (e as int, crate::ast::v_while(x)),
        ),
        r is None ==> spec_while_clause(s@, pos as int, o, kw@) is None,
        r matches Some((e, _)) ==> pos < e <= s@.len(),
    decreases s@.len() - pos, 14nat,
{
    proof {
        reveal_strlit("while");
        reveal_strlit("until");
    }
    let q = match keyword(s, pos, kw) {
        Some(q) => q,
        None => {
            return None;
        },
    };
    let (e, condition) = match compound_list(s, q, o) {
        Some(x) => x,
        None => {
            return None;
        },
    };
    match do_group(s, e, o) {
        Some((r, body)) => Some((r, WhileOrUntilClauseCommand(condition, body, SourceSpan { start: pos, end: r }))),
        None => None,
    }
}

/// A while clause: `while list do-group`.
pub fn while_clause(s: &[char], pos: usize, o: ParserOptions) -> (r: Option<(usize, WhileOrUntilClauseCommand)>)
    requires
        pos <= s@.len(),
    ensures
        r matches Some((e, x)) ==> spec_while_clause(s@, pos as int, o, "while"@) == Some(
            (e as int, crate::ast::v_while(x)),
        ),
        r is None ==> spec_while_clause(s@, pos as int, o, "while"@) is None,
        r matches Some((e, _)) ==> pos < e <= s@.len(),
    decreases s@.len() - pos, 15nat,
{
    while_or_until(s, pos, o, "while")
}

/// An until clause: `until list do-group`.
pub fn until_clause(s: &[char], pos: usize, o: ParserOptions) -> (r: Option<(usize, WhileOrUntilClauseCommand)>)
    requires
        pos <= s@.len(),
    ensures
        r matches Some((e, x)) ==> spec_while_clause(s@, pos as int, o, "until"@) == Some(
            (e as int, crate::ast::v_while(x)),
        ),
        r is None ==> spec_while_clause(s@, pos as int, o, "until"@) is None,
        r matches Some((e, _)) ==> pos < e <= s@.len(),
    decreases s@.len() - pos, 15nat,
{
    while_or_until(s, pos, o, "until")
}

/// One or more words separated by required blanks.
fn words(s: &[char], pos: usize) -> (r: Option<(usize, Vec<Word>)>)
    requires
        pos <= s@.len(),
    ensures
        r matches Some((e, x)) ==> spec_words(s@, pos as int) == Some((e as int, view_words(x@))),
        r is None ==> spec_words(s@, pos as int) is None,
        r matches Some((e, _)) ==> pos < e <= s@.len(),
{
    proof {
        reveal(spec_words);
    }
    let (e, first) = match word_as_ast(s, pos) {
        Some(x) => x,
        None => {
            return None;
        },
    };
    let mut items: Vec<Word> = Vec::new();
    proof {
        lemma_view_words_push(items@, first);
        assert(view_words(items@) =~= Seq::<crate::ast::SWord>::empty());
    }
    items.push(first);
    let mut cur = e;
    loop
        invariant
            pos < cur <= s@.len(),
            spec_words(s@, pos as int) is Some,
            words_rest(s@, cur as int, view_words(items@)) == spec_words(s@, pos as int).unwrap(),
        decreases s@.len() - cur,
    {
        match spaces1(s, cur) {
            Some(q) => match word_as_ast(s, q) {
                Some((e2, w)) => {
                    proof {
                        lemma_view_words_push(items@, w);
                    }
                    items.push(w);
                    cur = e2;
                },
                None => {
                    return Some((cur, items));
                },
            },
            None => {
                return Some((cur, items));
            },
        }
    }
}

/// A for clause: `for name [in words] ; do-group`.
pub fn for_clause(s: &[char], pos: usize, o: ParserOptions) -> (r: Option<(usize, ForClauseCommand)>)
    requires
        pos <= s@.len(),
    ensures
        r matches Some((e, x)) ==> spec_for_clause(s@, pos as int, o) == Some((e as int, v_for(x))),
        r is None ==> spec_for_clause(s@, pos as int, o) is None,
        r matches Some((e, _)) ==> pos < e <= s@.len(),
    decreases s@.len() - pos, 14nat,
{
    proof {
        reveal_strlit("for");
        reveal_strlit("in");
    }
    let q = match keyword(s, pos, "for") {
        Some(q) => q,
        None => {
            return None;
        },
    };
    let (e1, variable_name) = match name(s, q) {
        Some(x) => x,
        None => {
            return None;
        },
    };
    proof {
        crate::char_parsers::lemma_spaces(s@, q as int);
    }
    let e2 = linebreak(s, e1);
    let (e3, values) = match keyword(s, e2, "in") {
        Some(k) => match words(s, spaces(s, k)) {
            Some((e, ws)) => (e, Some(ws)),
            None => (k, None),
        },
        None => (e2, None),
    };
    let e4 = match sequential_sep(s, e3) {
        Some(e) => e,
        None => {
            return None;
        },
    };
    match do_group(s, e4, o) {
        Some((r, body)) => Some((r, ForClauseCommand { variable_name, values, body, loc: SourceSpan { start: pos, end: r } })),
        None => None,
    }
}

/// The body of an arithmetic for: a sequential separator and a do group, a do group,
/// or a brace group.
fn arithmetic_for_body(s: &[char], pos: usize, o: ParserOptions) -> (r: Option<(usize, DoGroupCommand)>)
    requires
        pos <= s@.len(),
    ensures
        r matches Some((e, x)) ==> spec_arithmetic_for_body(s@, pos as int, o) == Some((e as int, v_do(x))),
        r is None ==> spec_arithmetic_for_body(s@, pos as int, o) is None,
        r matches Some((e, _)) ==> pos < e <= s@.len(),
    decreases s@.len() - pos, 16nat,
{
    match sequential_sep(s, pos) {
        Some(q) => match do_group(s, q, o) {
            Some(r) => {
                return Some(r);
            },
            None => {},
        },
        None => {},
    }
    match do_group(s, pos, o) {
        Some(r) => Some(r),
        None => match brace_group(s, pos, o) {
            Some((e, b)) => Some((e, DoGroupCommand { list: b.list, loc: b.loc })),
            None => None,
        },
    }
}

/// The header of an arithmetic for: `for (( init ; cond ; update ))`.
fn arithmetic_for_header(s: &[char], pos: usize) -> (r: Option<
    (usize, (crate::ast::UnexpandedArithmeticExpr, crate::ast::UnexpandedArithmeticExpr, crate::ast::UnexpandedArithmeticExpr)),
>)
    requires
        pos <= s@.len(),
    ensures
        r matches Some((e, (a, b, c))) ==> arith_for_header(s@, pos as int) == Some(
            (e as int, (a.value@, b.value@, c.value@)),
        ),
        r is None ==> arith_for_header(s@, pos as int) is None,
        r matches Some((e, _)) ==> pos < e <= s@.len(),
{
    proof {
        reveal(arith_for_header);
    }
    proof {
        crate::grammar::lemma_arith_for_header(s@, pos as int);
    }
    let n = s.len();
    let q = match keyword(s, pos, "for") {
        Some(q) => q,
        None => {
            return None;
        },
    };
    let a = spaces(s, q);
    if !(a < n && s[a] == '(') {
        return None;
    }
    let b = spaces(s, a + 1);
    if !(b < n && s[b] == '(') {
        return None;
    }
    let (e1, init) = arithmetic_expression(s, b + 1);
    let c1 = spaces(s, e1);
    if !(c1 < n && s[c1] == ';') {
        return None;
    }
    let (e2, cond) = arithmetic_expression(s, c1 + 1);
    let c2 = spaces(s, e2);
    if !(c2 < n && s[c2] == ';') {
        return None;
    }
    let (e3, upd) = arithmetic_expression(s, c2 + 1);
    let c3 = spaces(s, e3);
    if !(c3 < n && s[c3] == ')' && n - c3 > 1 && s[c3 + 1] == ')') {
        return None;
    }
    Some((c3 + 2, (init, cond, upd)))
}

/// An arithmetic for clause: `for (( init; cond; update )) body`.
pub fn arithmetic_for_clause(s: &[char], pos: usize, o: ParserOptions) -> (r: Option<
    (usize, ArithmeticForClauseCommand),
>)
    requires
        pos <= s@.len(),
    ensures
        r matches Some((e, x)) ==> spec_arithmetic_for_clause(s@, pos as int, o) == Some(
            (e as int, v_arith_for(x)),
        ),
        r is None ==> spec_arithmetic_for_clause(s@, pos as int, o) is None,
        r matches Some((e, _)) ==> pos < e <= s@.len(),
    decreases s@.len() - pos, 14nat,
{
    let (h, (initializer, condition, updater)) = match arithmetic_for_header(s, pos) {
        Some(x) => x,
        None => {
            return None;
        },
    };
    match arithmetic_for_body(s, h, o) {
        Some((r, body)) => Some(
            (
                r,
                ArithmeticForClauseCommand {
                    initializer: Some(initializer),
                    condition: Some(condition),
                    updater: Some(updater),
                    body,
                    loc: SourceSpan { start: pos, end: r },
                },
            ),
        ),
        None => None,
    }
}

/// A command starting with `f`: an arithmetic for, or failing that a for clause.
pub fn for_or_arithmetic_for(s: &[char], pos: usize, o: ParserOptions) -> (r: Option<(usize, CompoundCommand)>)
    requires
        pos <= s@.len(),
    ensures
        r matches Some((e, x)) ==> spec_for_or_arithmetic_for(s@, pos as int, o) == Some(
            (e as int, v_compound(x)),
        ),
        r is None ==> spec_for_or_arithmetic_for(s@, pos as int, o) is None,
        r matches Some((e, _)) ==> pos < e <= s@.len(),
    decreases s@.len() - pos, 15nat,
{
    match arithmetic_for_clause(s, pos, o) {
        Some((e, f)) => {
            return Some((e, CompoundCommand::ArithmeticForClause(f)));
        },
        None => {},
    }
    match for_clause(s, pos, o) {
        Some((e, f)) => Some((e, CompoundCommand::ForClause(f))),
        None => None,
    }
}

/// A case item terminator after optional spaces: `;;&`, `;&` or `;;`.
pub fn case_item_terminator(s: &[char], pos: usize) -> (r: Option<(usize, CaseItemPostAction)>)
    requires
        pos <= s@.len(),
    ensures
        r matches Some((e, a)) ==> spec_case_item_terminator(s@, pos as int) == Some((e as int, a)),
        r is None ==> spec_case_item_terminator(s@, pos as int) is None,
        r matches Some((e, _)) ==> pos < e <= s@.len(),
{
    proof {
        reveal(spec_case_item_terminator);
    }
    let q = spaces(s, pos);
    match peek_op3(s, q) {
        Some(e) => {
            proof {
                reveal_strlit(";;&");
                reveal_strlit(";&");
                reveal_strlit(";;");
                assert(";;&"@ =~= seq![';', ';', '&']);
                assert(";&"@ =~= seq![';', '&']);
                assert(";;"@ =~= seq![';', ';']);
            }
            if text_eq(s, q, e, ";;&") {
                Some((e, CaseItemPostAction::ContinueEvaluatingCases))
            } else if text_eq(s, q, e, ";&") {
                Some((e, CaseItemPostAction::UnconditionallyExecuteNextCaseItem))
            } else if text_eq(s, q, e, ";;") {
                Some((e, CaseItemPostAction::ExitCase))
            } else {
                None
            }
        },
        None => None,
    }
}

/// Case patterns: words separated by `|` (spaces allowed around it).
fn patterns(s: &[char], pos: usize) -> (r: Option<(usize, Vec<Word>)>)
    requires
        pos <= s@.len(),
    ensures
        r matches Some((e, x)) ==> spec_patterns(s@, pos as int) == Some((e as int, view_words(x@))),
        r is None ==> spec_patterns(s@, pos as int) is None,
        r matches Some((e, _)) ==> pos < e <= s@.len(),
{
    proof {
        reveal(spec_patterns);
    }
    let n = s.len();
    let (e, first) = match word_as_ast(s, pos) {
        Some(x) => x,
        None => {
            return None;
        },
    };
    let mut items: Vec<Word> = Vec::new();
    proof {
        lemma_view_words_push(items@, first);
        assert(view_words(items@) =~= Seq::<crate::ast::SWord>::empty());
    }
    items.push(first);
    let mut cur = e;
    loop
        invariant
            pos < cur <= s@.len(),
            n == s@.len(),
            spec_patterns(s@, pos as int) is Some,
            patterns_rest(s@, cur as int, view_words(items@)) == spec_patterns(s@, pos as int).unwrap(),
        decreases s@.len() - cur,
    {
        let a = spaces(s, cur);
        if !(a < n && s[a] == '|') {
            return Some((cur, items));
        }
        match word_as_ast(s, spaces(s, a + 1)) {
            Some((e2, w)) => {
                proof {
                    lemma_view_words_push(items@, w);
                }
                items.push(w);
                cur = e2;
            },
            None => {
                return Some((cur, items));
            },
        }
    }
}

/// A case item: `[(] patterns ) linebreak [list] [terminator] linebreak`.
fn case_item(s: &[char], pos: usize, o: ParserOptions) -> (r: Option<(usize, CaseItem)>)
    requires
        pos <= s@.len(),
    ensures
        r matches Some((e, x)) ==> spec_case_item(s@, pos as int, o) == Some((e as int, v_case_item(x))),
        r is None ==> spec_case_item(s@, pos as int, o) is None,
        r matches Some((e, _)) ==> pos < e <= s@.len(),
    decreases s@.len() - pos, 1nat,
{
    let n = s.len();
    let q = spaces(s, pos);
    let q1 = if q < n && s[q] == '(' {
        q + 1
    } else {
        q
    };
    let (e1, patterns) = match patterns(s, spaces(s, q1)) {
        Some(x) => x,
        None => {
            return None;
        },
    };
    let e2 = spaces(s, e1);
    if !(e2 < n && s[e2] == ')') {
        return None;
    }
    let e3 = linebreak(s, e2 + 1);
    let (e4, cmd) = match compound_list(s, e3, o) {
        Some((e, l)) => (e, Some(l)),
        None => (e3, None),
    };
    let (e5, post_action) = match case_item_terminator(s, e4) {
        Some((e, a)) => (e, a),
        None => (e4, CaseItemPostAction::ExitCase),
    };
    Some((linebreak(s, e5), CaseItem { patterns, cmd, post_action, loc: Some(SourceSpan { start: q, end: e5 }) }))
}

/// Case items up to `esac` (not consumed); at least one.
/// Where a failing case item stops (see `case_item_stop`).
fn case_item_stop_at(s: &[char], pos: usize) -> (e: usize)
    requires
        pos <= s@.len(),
    ensures
        e == case_item_stop(s@, pos as int),
        pos <= e <= s@.len(),
{
    proof {
        lemma_case_item_stop(s@, pos as int);
    }
    let n = s.len();
    let q = spaces(s, pos);
    let q1 = if q < n && s[q] == '(' {
        q + 1
    } else {
        q
    };
    let r = spaces(s, q1);
    match patterns(s, r) {
        Some((e1, _)) => spaces(s, e1),
        None => r,
    }
}

fn case_list(s: &[char], pos: usize, o: ParserOptions) -> (r: Option<(usize, Vec<CaseItem>)>)
    requires
        pos <= s@.len(),
    ensures
        r matches Some((e, x)) ==> spec_case_list(s@, pos as int, o) == Some((e as int, v_case_items(x@))),
        r is None ==> spec_case_list(s@, pos as int, o) is None,
        r matches Some((e, _)) ==> pos <= e <= s@.len(),
    decreases s@.len() - pos, 3nat,
{
    let mut items: Vec<CaseItem> = Vec::new();
    let mut cur = pos;
    proof {
        assert(v_case_items(items@) =~= Seq::<crate::ast::SCaseItem>::empty());
    }
    loop
        invariant
            pos <= cur <= s@.len(),
            case_list_rest(s@, cur as int, o, v_case_items(items@)) == case_list_rest(
                s@,
                pos as int,
                o,
                Seq::empty(),
            ),
            items@.len() == v_case_items(items@).len(),
        decreases s@.len() - cur,
    {
        let stop = if keyword(s, spaces(s, cur), "esac").is_some() {
            true
        } else {
            match case_item(s, cur, o) {
                Some((e, it)) => {
                    proof {
                        lemma_v_case_items_push(items@, it);
                    }
                    items.push(it);
                    cur = e;
                    false
                },
                None => {
                    cur = case_item_stop_at(s, cur);
                    true
                },
            }
        };
        if stop {
            if items.len() == 0 {
                return None;
            } else {
                return Some((cur, items));
            }
        }
    }
}

/// A case clause: `case word [linebreak] in [linebreak] items esac`.
pub fn case_clause(s: &[char], pos: usize, o: ParserOptions) -> (r: Option<(usize, CaseClauseCommand)>)
    requires
        pos <= s@.len(),
    ensures
        r matches Some((e, x)) ==> spec_case_clause(s@, pos as int, o) == Some((e as int, v_case(x))),
        r is None ==> spec_case_clause(s@, pos as int, o) is None,
        r matches Some((e, _)) ==> pos < e <= s@.len(),
    decreases s@.len() - pos, 15nat,
{
    proof {
        reveal_strlit("case");
        reveal_strlit("in");
        reveal_strlit("esac");
    }
    let q = match keyword(s, pos, "case") {
        Some(q) => q,
        None => {
            return None;
        },
    };
    let (e1, value) = match word_as_ast(s, spaces(s, q)) {
        Some(x) => x,
        None => {
            return None;
        },
    };
    let k = match keyword(s, linebreak(s, e1), "in") {
        Some(k) => k,
        None => {
            return None;
        },
    };
    let e3 = linebreak(s, k);
    let (e4, cases) = match case_list(s, e3, o) {
        Some((e, items)) => (e, items),
        None => (e3, Vec::new()),
    };
    proof {
        assert(v_case_items(Seq::<CaseItem>::empty()) =~= Seq::<crate::ast::SCaseItem>::empty());
    }
    match keyword(s, spaces(s, e4), "esac") {
        Some(r) => Some((r, CaseClauseCommand { value, cases, loc: SourceSpan { start: pos, end: r } })),
        None => None,
    }
}

} // verus!
