//! Properties of the command grammar that tie what is built to what was read.

use vstd::prelude::*;
use crate::ast::{
    span, SAndOr, SAndOrList, SElseClause, SCommand, SPipeline, SeparatorOperator, SCompoundList, SFunctionDefinition, SListItem, SWord,
    UnaryPredicate, BinaryPredicate,
};
use crate::char_parsers::{at, lit_at, spaces_end, spec_peek_op3};
use crate::extended_test_parsers::{spec_binary_operator, spec_unary_operator};
use crate::grammar::{
    adv, and_or_op, and_or_rest, lemma_leaves, list_rest, pipeline_rest, spec_and_or, spec_command,
    elif_rest, spec_compound_command, spec_do_group, spec_elif_clause, spec_else_clause, spec_for_clause, spec_name, spec_pipeline,
    spec_while_clause, spec_case_item, spec_case_item_terminator,
    spec_compound_list, spec_fname, spec_function_body, spec_function_definition, spec_if_clause,
    ParserOptions,
};
use crate::line_parsers::{linebreak_end, spec_separator, spec_separator_op};
use crate::word_parsers::{spec_is_reserved_word, spec_keyword};

verus! {

/// Some character of `s[a..b]` is `c`.
pub open spec fn has_char_in(s: Seq<char>, a: int, b: int, c: char) -> bool {
    exists|k: int| a <= k < b && #[trigger] s[k] == c
}

/// Some item of the list runs in the background.
pub open spec fn has_async_item(l: SCompoundList) -> bool {
    exists|i: int| 0 <= i < l.len() && (#[trigger] l[i]).sep is Async
}

/// The separator that the operator read at `q` gives an item: the operator itself,
/// or `Sequence` where none is read (a newline or the end of the list).
pub open spec fn separator_read_at(s: Seq<char>, q: int) -> SeparatorOperator {
    match spec_separator_op(s, q) {
        Some((_, op)) => op,
        None => SeparatorOperator::Sequence,
    }
}

proof fn lemma_list_rest_items(
    s: Seq<char>,
    p0: int,
    cur: int,
    o: ParserOptions,
    ao: SAndOrList,
    acc: Seq<SListItem>,
)
    requires
        0 <= p0 <= cur <= s.len(),
        has_async_item(acc) ==> has_char_in(s, p0, cur, '&'),
    ensures
        list_rest(s, cur, o, ao, acc) matches Some((e, l)) ==> {
            &&& cur <= e <= s.len()
            &&& l.len() > acc.len()
            &&& l.subrange(0, acc.len() as int) == acc
            &&& l[acc.len() as int].ao == ao
            &&& l[acc.len() as int].sep == separator_read_at(s, spaces_end(s, cur))
            &&& has_async_item(l) ==> has_char_in(s, p0, e, '&')
        },
    decreases s.len() - cur,
{
    reveal(spec_separator);
    lemma_leaves(s, cur);
    let q = spaces_end(s, cur);
    lemma_leaves(s, q);
    if let Some((e, l)) = list_rest(s, cur, o, ao, acc) {
        match spec_separator(s, q) {
            None => {
                let l1 = acc.push(SListItem { ao, sep: SeparatorOperator::Sequence });
                assert(l == l1);
                assert(spec_separator_op(s, q) is None);
                assert(l.subrange(0, acc.len() as int) =~= acc);
                if has_async_item(l) {
                    let i = choose|i: int| 0 <= i < l.len() && (#[trigger] l[i]).sep is Async;
                    assert(i < acc.len());
                    assert(acc[i] == l[i]);
                    assert(has_async_item(acc));
                    let k = choose|k: int| p0 <= k < cur && #[trigger] s[k] == '&';
                    assert(p0 <= k < e && s[k] == '&');
                }
            },
            Some((e1, sep)) => {
                lemma_leaves(s, e1);
                let r = spaces_end(s, e1);
                let op = match sep {
                    Some(op) => op,
                    None => SeparatorOperator::Sequence,
                };
                assert(op == separator_read_at(s, q));
                let acc2 = acc.push(SListItem { ao, sep: op });
                assert(acc2.subrange(0, acc.len() as int) =~= acc);
                // an item that runs in the background was ended by a `&` at `q`
                assert(has_async_item(acc2) ==> has_char_in(s, p0, r, '&')) by {
                    if has_async_item(acc2) {
                        let i = choose|i: int| 0 <= i < acc2.len() && (#[trigger] acc2[i]).sep is Async;
                        if i < acc.len() {
                            assert(acc[i] == acc2[i]);
                            assert(has_async_item(acc));
                            let k = choose|k: int| p0 <= k < cur && #[trigger] s[k] == '&';
                            assert(p0 <= k < r && s[k] == '&');
                        } else {
                            assert(op is Async);
                            assert(s[q] == '&');
                            assert(p0 <= q < r);
                        }
                    }
                }
                match spec_and_or(s, r, o) {
                    Some((e2, ao2)) => {
                        assert(r < e2 <= s.len());
                        assert(has_async_item(acc2) ==> has_char_in(s, p0, e2, '&')) by {
                            if has_async_item(acc2) {
                                let k = choose|k: int| p0 <= k < r && #[trigger] s[k] == '&';
                                assert(p0 <= k < e2 && s[k] == '&');
                            }
                        }
                        lemma_list_rest_items(s, p0, e2, o, ao2, acc2);
                        assert(l.subrange(0, acc2.len() as int) == acc2);
                        assert(l[acc.len() as int] == l.subrange(0, acc2.len() as int)[acc.len() as int]);
                        assert(l.subrange(0, acc.len() as int) =~= l.subrange(0, acc2.len() as int).subrange(
                            0,
                            acc.len() as int,
                        ));
                    },
                    None => {
                        assert(l == acc2);
                    },
                }
            },
        }
    }
}

proof fn lemma_compound_list_bounds(s: Seq<char>, p: int, o: ParserOptions)
    requires
        0 <= p <= s.len(),
    ensures
        spec_compound_list(s, p, o) matches Some((e, _)) ==> p <= e <= s.len(),
{
    lemma_leaves(s, p);
    let q = linebreak_end(s, p);
    if let Some((e1, ao)) = spec_and_or(s, q, o) {
        if q < e1 <= s.len() {
            lemma_list_rest_items(s, p, e1, o, ao, Seq::empty());
        }
    }
}

/// In a compound list an item runs in the background only where a `&` was read:
/// a list whose text holds no `&` has every item run in sequence (in particular,
/// commands separated by newlines run one after the other). The first item's
/// separator is the operator read right after its and-or list (spaces skipped), and
/// `Sequence` where none is.
pub proof fn law_compound_list_separators(s: Seq<char>, p: int, o: ParserOptions)
    requires
        0 <= p <= s.len(),
    ensures
        spec_compound_list(s, p, o) matches Some((e, l)) ==> {
            &&& (forall|k: int| p <= k < e ==> #[trigger] s[k] != '&') ==> forall|i: int|
                0 <= i < l.len() ==> !((#[trigger] l[i]).sep is Async)
            &&& spec_and_or(s, linebreak_end(s, p), o) matches Some((e1, _)) && l.len() > 0
                && l[0].sep == separator_read_at(s, spaces_end(s, e1))
        },
{
    lemma_leaves(s, p);
    let q = linebreak_end(s, p);
    if let Some((e, l)) = spec_compound_list(s, p, o) {
        let (e1, ao) = spec_and_or(s, q, o).unwrap();
        assert(q < e1 <= s.len());
        lemma_list_rest_items(s, p, e1, o, ao, Seq::empty());
        assert(l.subrange(0, 0) =~= Seq::<SListItem>::empty());
        if forall|k: int| p <= k < e ==> #[trigger] s[k] != '&' {
            assert forall|i: int| 0 <= i < l.len() implies !((#[trigger] l[i]).sep is Async) by {
                if l[i].sep is Async {
                    assert(has_async_item(l));
                    let k = choose|k: int| p <= k < e && #[trigger] s[k] == '&';
                }
            }
        }
    }
}

/// The condition of an `if` clause is the compound list read right after the `if`
/// keyword, and its body the compound list read right after the `then` keyword that
/// follows the condition.
pub proof fn law_if_clause_parts(s: Seq<char>, p: int, o: ParserOptions)
    requires
        0 <= p <= s.len(),
    ensures
        spec_if_clause(s, p, o) matches Some((e, c)) ==> {
            &&& spec_keyword(s, p, "if"@) matches Some(q)
            &&& spec_compound_list(s, q, o) matches Some((e1, cond))
            &&& c.condition == cond
            &&& spec_keyword(s, e1, "then"@) matches Some(q2)
            &&& spec_compound_list(s, q2, o) matches Some((e2, body))
            &&& c.then_body == body
        },
{
}

/// `s[..t]` ends with `lit`.
pub open spec fn ends_with_at(s: Seq<char>, t: int, lit: Seq<char>) -> bool {
    lit.len() <= t <= s.len() && s.subrange(t - lit.len(), t) == lit
}

/// `s[..t]` ends with `;;&`.
pub open spec fn ends_with_continue(s: Seq<char>, t: int) -> bool {
    ends_with_at(s, t, seq![';', ';', '&'])
}

/// `s[..t]` ends with `;&`.
pub open spec fn ends_with_fallthrough(s: Seq<char>, t: int) -> bool {
    ends_with_at(s, t, seq![';', '&'])
}

/// A case item goes on testing the next patterns only when its list was ended by
/// `;;&`, and falls through to the next item only when it was ended by `;&`: the
/// terminator is the last thing read before the line breaks that end the item. An
/// item with no terminator (or with `;;`) ends the case.
pub proof fn law_case_item_post_action(s: Seq<char>, p: int, o: ParserOptions)
    requires
        0 <= p <= s.len(),
    ensures
        spec_case_item(s, p, o) matches Some((e, it)) ==> {
            &&& it.post_action is ContinueEvaluatingCases ==> exists|t: int|
                p <= t <= e && linebreak_end(s, t) == e && #[trigger] ends_with_continue(s, t)
            &&& it.post_action is UnconditionallyExecuteNextCaseItem ==> exists|t: int|
                p <= t <= e && linebreak_end(s, t) == e && #[trigger] ends_with_fallthrough(s, t)
        },
{
    reveal(spec_peek_op3);
    reveal(spec_case_item_terminator);
    if let Some((e, it)) = spec_case_item(s, p, o) {
        lemma_leaves(s, p);
        let q = spaces_end(s, p);
        lemma_leaves(s, q);
        let q1 = if at(s, q, '(') {
            q + 1
        } else {
            q
        };
        lemma_leaves(s, q1);
        let (e1, pats) = crate::grammar::spec_patterns(s, spaces_end(s, q1)).unwrap();
        crate::grammar::lemma_patterns(s, spaces_end(s, q1));
        lemma_leaves(s, e1);
        let e2 = spaces_end(s, e1);
        assert(at(s, e2, ')'));
        lemma_leaves(s, e2 + 1);
        let e3 = linebreak_end(s, e2 + 1);
        let e4 = match spec_compound_list(s, e3, o) {
            Some((x, _)) => x,
            None => e3,
        };
        lemma_compound_list_bounds(s, e3, o);
        assert(0 <= e4 <= s.len());
        lemma_leaves(s, e4);
        let a = spaces_end(s, e4);
        match spec_case_item_terminator(s, e4) {
            Some((e5, act)) => {
                lemma_leaves(s, e5);
                let t = s.subrange(a, e5);
                assert(it.post_action == act);
                assert(p <= e5 <= e);
                assert(linebreak_end(s, e5) == e);
                if act is ContinueEvaluatingCases {
                    assert(t == seq![';', ';', '&']);
                    assert(ends_with_continue(s, e5));
                } else if act is UnconditionallyExecuteNextCaseItem {
                    assert(t == seq![';', '&']);
                    assert(ends_with_fallthrough(s, e5));
                }
            },
            None => {
                assert(it.post_action is ExitCase);
            },
        }
    }
}

/// A function definition is read whenever its name is introduced by the `function`
/// keyword, by `()` after it, or by both, and a body follows; it is refused only
/// where neither the keyword nor the parentheses are there (or without a body, or
/// with a reserved word as the name and no keyword).
pub proof fn law_function_keyword_or_parens(s: Seq<char>, p: int, o: ParserOptions)
    requires
        0 <= p <= s.len(),
    ensures
        ({
            let has_kw = spec_keyword(s, p, "function"@) is Some;
            let q = match spec_keyword(s, p, "function"@) {
                Some(e) => e,
                None => p,
            };
            spec_fname(s, q) matches Some((e1, name)) ==> {
                let e2 = spaces_end(s, e1);
                let a = spaces_end(s, e2 + 1);
                let has_parens = at(s, e2, '(') && at(s, a, ')');
                let after = if has_parens {
                    a + 1
                } else {
                    e2
                };
                &&& (has_kw || !spec_is_reserved_word(name)) && (has_kw || has_parens) && (
                has_parens || !at(s, e2, '(')) ==> match spec_function_body(
                    s,
                    linebreak_end(s, after),
                    o,
                ) {
                    Some((r, (cc, rd))) => spec_function_definition(s, p, o) == Some(
                        (
                            r,
                            SFunctionDefinition {
                                fname: SWord { value: name, loc: Some(span(q, e1)) },
                                body: cc,
                                redirects: rd,
                            },
                        ),
                    ),
                    None => spec_function_definition(s, p, o) is None,
                }
                &&& !has_kw && !has_parens ==> spec_function_definition(s, p, o) is None
            }
        }),
{
    lemma_leaves(s, p);
    let q = match spec_keyword(s, p, "function"@) {
        Some(e) => e,
        None => p,
    };
    lemma_leaves(s, q);
    if let Some((e1, name)) = spec_fname(s, q) {
        lemma_leaves(s, e1);
        let e2 = spaces_end(s, e1);
        if e2 < s.len() {
            lemma_leaves(s, e2 + 1);
        }
    }
}

/// The operators of a unary test, with the test each names.
pub open spec fn unary_operator_names(t: UnaryPredicate) -> Set<Seq<char>> {
    match t {
        UnaryPredicate::FileExists => set![seq!['-', 'e']],
        UnaryPredicate::FileExistsAndIsBlockSpecialFile => set![seq!['-', 'b']],
        UnaryPredicate::FileExistsAndIsCharSpecialFile => set![seq!['-', 'c']],
        UnaryPredicate::FileExistsAndIsDir => set![seq!['-', 'd']],
        UnaryPredicate::FileExistsAndIsRegularFile => set![seq!['-', 'f']],
        UnaryPredicate::FileExistsAndIsSetgid => set![seq!['-', 'g']],
        UnaryPredicate::FileExistsAndIsSymlink => set![seq!['-', 'h'], seq!['-', 'L']],
        UnaryPredicate::FileExistsAndHasStickyBit => set![seq!['-', 'k']],
        UnaryPredicate::FileExistsAndIsFifo => set![seq!['-', 'p']],
        UnaryPredicate::FileExistsAndIsReadable => set![seq!['-', 'r']],
        UnaryPredicate::FileExistsAndIsNotZeroLength => set![seq!['-', 's']],
        UnaryPredicate::FdIsOpenTerminal => set![seq!['-', 't']],
        UnaryPredicate::FileExistsAndIsSetuid => set![seq!['-', 'u']],
        UnaryPredicate::FileExistsAndIsWritable => set![seq!['-', 'w']],
        UnaryPredicate::FileExistsAndIsExecutable => set![seq!['-', 'x']],
        UnaryPredicate::FileExistsAndOwnedByEffectiveGroupId => set![seq!['-', 'G']],
        UnaryPredicate::FileExistsAndModifiedSinceLastRead => set![seq!['-', 'N']],
        UnaryPredicate::FileExistsAndOwnedByEffectiveUserId => set![seq!['-', 'O']],
        UnaryPredicate::FileExistsAndIsSocket => set![seq!['-', 'S']],
        UnaryPredicate::ShellOptionEnabled => set![seq!['-', 'o']],
        UnaryPredicate::ShellVariableIsSetAndAssigned => set![seq!['-', 'v']],
        UnaryPredicate::ShellVariableIsSetAndNameRef => set![seq!['-', 'R']],
        UnaryPredicate::StringHasZeroLength => set![seq!['-', 'z']],
        UnaryPredicate::StringHasNonZeroLength => set![seq!['-', 'n']],
    }
}

/// The operators of a binary test, with the test each names.
pub open spec fn binary_operator_names(t: BinaryPredicate) -> Set<Seq<char>> {
    match t {
        BinaryPredicate::StringExactlyMatchesPattern => set![seq!['='], seq!['=', '=']],
        BinaryPredicate::StringDoesNotExactlyMatchPattern => set![seq!['!', '=']],
        BinaryPredicate::LeftSortsBeforeRight => set![seq!['<']],
        BinaryPredicate::LeftSortsAfterRight => set![seq!['>']],
        BinaryPredicate::ArithmeticEqualTo => set![seq!['-', 'e', 'q']],
        BinaryPredicate::ArithmeticNotEqualTo => set![seq!['-', 'n', 'e']],
        BinaryPredicate::ArithmeticLessThan => set![seq!['-', 'l', 't']],
        BinaryPredicate::ArithmeticLessThanOrEqualTo => set![seq!['-', 'l', 'e']],
        BinaryPredicate::ArithmeticGreaterThan => set![seq!['-', 'g', 't']],
        BinaryPredicate::ArithmeticGreaterThanOrEqualTo => set![seq!['-', 'g', 'e']],
        BinaryPredicate::LeftFileIsNewerOrExistsWhenRightDoesNot => set![seq!['-', 'n', 't']],
        BinaryPredicate::LeftFileIsOlderOrDoesNotExistWhenRightDoes => set![seq!['-', 'o', 't']],
        BinaryPredicate::FilesReferToSameDeviceAndInodeNumbers => set![seq!['-', 'e', 'f']],
        BinaryPredicate::StringMatchesRegex => set![seq!['=', '~']],
    }
}

/// A unary test operator names exactly the test that bash gives it: `op` reads as
/// test `t` if and only if `op` is one of `t`'s operators (`-d` a directory, `-f` a
/// regular file, `-h` and `-L` a symbolic link, ...). So no two tests share an
/// operator, and each operator reads as one test only.
pub proof fn law_unary_operator_table(op: Seq<char>, t: UnaryPredicate)
    ensures
        spec_unary_operator(op) == Some(t) <==> unary_operator_names(t).contains(op),
{
    reveal_strlit("-e");
    assert("-e"@.len() == 2 && "-e"@[0] == '-' && "-e"@[1] == 'e');
    assert("-e"@ =~= seq!['-', 'e']);
    reveal_strlit("-b");
    assert("-b"@.len() == 2 && "-b"@[0] == '-' && "-b"@[1] == 'b');
    assert("-b"@ =~= seq!['-', 'b']);
    reveal_strlit("-c");
    assert("-c"@.len() == 2 && "-c"@[0] == '-' && "-c"@[1] == 'c');
    assert("-c"@ =~= seq!['-', 'c']);
    reveal_strlit("-d");
    assert("-d"@.len() == 2 && "-d"@[0] == '-' && "-d"@[1] == 'd');
    assert("-d"@ =~= seq!['-', 'd']);
    reveal_strlit("-f");
    assert("-f"@.len() == 2 && "-f"@[0] == '-' && "-f"@[1] == 'f');
    assert("-f"@ =~= seq!['-', 'f']);
    reveal_strlit("-g");
    assert("-g"@.len() == 2 && "-g"@[0] == '-' && "-g"@[1] == 'g');
    assert("-g"@ =~= seq!['-', 'g']);
    reveal_strlit("-h");
    assert("-h"@.len() == 2 && "-h"@[0] == '-' && "-h"@[1] == 'h');
    assert("-h"@ =~= seq!['-', 'h']);
    reveal_strlit("-L");
    assert("-L"@.len() == 2 && "-L"@[0] == '-' && "-L"@[1] == 'L');
    assert("-L"@ =~= seq!['-', 'L']);
    reveal_strlit("-k");
    assert("-k"@.len() == 2 && "-k"@[0] == '-' && "-k"@[1] == 'k');
    assert("-k"@ =~= seq!['-', 'k']);
    reveal_strlit("-p");
    assert("-p"@.len() == 2 && "-p"@[0] == '-' && "-p"@[1] == 'p');
    assert("-p"@ =~= seq!['-', 'p']);
    reveal_strlit("-r");
    assert("-r"@.len() == 2 && "-r"@[0] == '-' && "-r"@[1] == 'r');
    assert("-r"@ =~= seq!['-', 'r']);
    reveal_strlit("-s");
    assert("-s"@.len() == 2 && "-s"@[0] == '-' && "-s"@[1] == 's');
    assert("-s"@ =~= seq!['-', 's']);
    reveal_strlit("-t");
    assert("-t"@.len() == 2 && "-t"@[0] == '-' && "-t"@[1] == 't');
    assert("-t"@ =~= seq!['-', 't']);
    reveal_strlit("-u");
    assert("-u"@.len() == 2 && "-u"@[0] == '-' && "-u"@[1] == 'u');
    assert("-u"@ =~= seq!['-', 'u']);
    reveal_strlit("-w");
    assert("-w"@.len() == 2 && "-w"@[0] == '-' && "-w"@[1] == 'w');
    assert("-w"@ =~= seq!['-', 'w']);
    reveal_strlit("-x");
    assert("-x"@.len() == 2 && "-x"@[0] == '-' && "-x"@[1] == 'x');
    assert("-x"@ =~= seq!['-', 'x']);
    reveal_strlit("-G");
    assert("-G"@.len() == 2 && "-G"@[0] == '-' && "-G"@[1] == 'G');
    assert("-G"@ =~= seq!['-', 'G']);
    reveal_strlit("-N");
    assert("-N"@.len() == 2 && "-N"@[0] == '-' && "-N"@[1] == 'N');
    assert("-N"@ =~= seq!['-', 'N']);
    reveal_strlit("-O");
    assert("-O"@.len() == 2 && "-O"@[0] == '-' && "-O"@[1] == 'O');
    assert("-O"@ =~= seq!['-', 'O']);
    reveal_strlit("-S");
    assert("-S"@.len() == 2 && "-S"@[0] == '-' && "-S"@[1] == 'S');
    assert("-S"@ =~= seq!['-', 'S']);
    reveal_strlit("-o");
    assert("-o"@.len() == 2 && "-o"@[0] == '-' && "-o"@[1] == 'o');
    assert("-o"@ =~= seq!['-', 'o']);
    reveal_strlit("-v");
    assert("-v"@.len() == 2 && "-v"@[0] == '-' && "-v"@[1] == 'v');
    assert("-v"@ =~= seq!['-', 'v']);
    reveal_strlit("-R");
    assert("-R"@.len() == 2 && "-R"@[0] == '-' && "-R"@[1] == 'R');
    assert("-R"@ =~= seq!['-', 'R']);
    reveal_strlit("-z");
    assert("-z"@.len() == 2 && "-z"@[0] == '-' && "-z"@[1] == 'z');
    assert("-z"@ =~= seq!['-', 'z']);
    reveal_strlit("-n");
    assert("-n"@.len() == 2 && "-n"@[0] == '-' && "-n"@[1] == 'n');
    assert("-n"@ =~= seq!['-', 'n']);
    if unary_operator_names(t).contains(op) {
        match t {
            UnaryPredicate::FileExists => {
                if op == seq!['-', 'e'] {
                    assert(op.len() == 2 && op[0] == '-' && op[1] == 'e');
                }
            },
            UnaryPredicate::FileExistsAndIsBlockSpecialFile => {
                if op == seq!['-', 'b'] {
                    assert(op.len() == 2 && op[0] == '-' && op[1] == 'b');
                }
            },
            UnaryPredicate::FileExistsAndIsCharSpecialFile => {
                if op == seq!['-', 'c'] {
                    assert(op.len() == 2 && op[0] == '-' && op[1] == 'c');
                }
            },
            UnaryPredicate::FileExistsAndIsDir => {
                if op == seq!['-', 'd'] {
                    assert(op.len() == 2 && op[0] == '-' && op[1] == 'd');
                }
            },
            UnaryPredicate::FileExistsAndIsRegularFile => {
                if op == seq!['-', 'f'] {
                    assert(op.len() == 2 && op[0] == '-' && op[1] == 'f');
                }
            },
            UnaryPredicate::FileExistsAndIsSetgid => {
                if op == seq!['-', 'g'] {
                    assert(op.len() == 2 && op[0] == '-' && op[1] == 'g');
                }
            },
            UnaryPredicate::FileExistsAndIsSymlink => {
                if op == seq!['-', 'h'] {
                    assert(op.len() == 2 && op[0] == '-' && op[1] == 'h');
                }
                if op == seq!['-', 'L'] {
                    assert(op.len() == 2 && op[0] == '-' && op[1] == 'L');
                }
            },
            UnaryPredicate::FileExistsAndHasStickyBit => {
                if op == seq!['-', 'k'] {
                    assert(op.len() == 2 && op[0] == '-' && op[1] == 'k');
                }
            },
            UnaryPredicate::FileExistsAndIsFifo => {
                if op == seq!['-', 'p'] {
                    assert(op.len() == 2 && op[0] == '-' && op[1] == 'p');
                }
            },
            UnaryPredicate::FileExistsAndIsReadable => {
                if op == seq!['-', 'r'] {
                    assert(op.len() == 2 && op[0] == '-' && op[1] == 'r');
                }
            },
            UnaryPredicate::FileExistsAndIsNotZeroLength => {
                if op == seq!['-', 's'] {
                    assert(op.len() == 2 && op[0] == '-' && op[1] == 's');
                }
            },
            UnaryPredicate::FdIsOpenTerminal => {
                if op == seq!['-', 't'] {
                    assert(op.len() == 2 && op[0] == '-' && op[1] == 't');
                }
            },
            UnaryPredicate::FileExistsAndIsSetuid => {
                if op == seq!['-', 'u'] {
                    assert(op.len() == 2 && op[0] == '-' && op[1] == 'u');
                }
            },
            UnaryPredicate::FileExistsAndIsWritable => {
                if op == seq!['-', 'w'] {
                    assert(op.len() == 2 && op[0] == '-' && op[1] == 'w');
                }
            },
            UnaryPredicate::FileExistsAndIsExecutable => {
                if op == seq!['-', 'x'] {
                    assert(op.len() == 2 && op[0] == '-' && op[1] == 'x');
                }
            },
            UnaryPredicate::FileExistsAndOwnedByEffectiveGroupId => {
                if op == seq!['-', 'G'] {
                    assert(op.len() == 2 && op[0] == '-' && op[1] == 'G');
                }
            },
            UnaryPredicate::FileExistsAndModifiedSinceLastRead => {
                if op == seq!['-', 'N'] {
                    assert(op.len() == 2 && op[0] == '-' && op[1] == 'N');
                }
            },
            UnaryPredicate::FileExistsAndOwnedByEffectiveUserId => {
                if op == seq!['-', 'O'] {
                    assert(op.len() == 2 && op[0] == '-' && op[1] == 'O');
                }
            },
            UnaryPredicate::FileExistsAndIsSocket => {
                if op == seq!['-', 'S'] {
                    assert(op.len() == 2 && op[0] == '-' && op[1] == 'S');
                }
            },
            UnaryPredicate::ShellOptionEnabled => {
                if op == seq!['-', 'o'] {
                    assert(op.len() == 2 && op[0] == '-' && op[1] == 'o');
                }
            },
            UnaryPredicate::ShellVariableIsSetAndAssigned => {
                if op == seq!['-', 'v'] {
                    assert(op.len() == 2 && op[0] == '-' && op[1] == 'v');
                }
            },
            UnaryPredicate::ShellVariableIsSetAndNameRef => {
                if op == seq!['-', 'R'] {
                    assert(op.len() == 2 && op[0] == '-' && op[1] == 'R');
                }
            },
            UnaryPredicate::StringHasZeroLength => {
                if op == seq!['-', 'z'] {
                    assert(op.len() == 2 && op[0] == '-' && op[1] == 'z');
                }
            },
            UnaryPredicate::StringHasNonZeroLength => {
                if op == seq!['-', 'n'] {
                    assert(op.len() == 2 && op[0] == '-' && op[1] == 'n');
                }
            },
        }
    }
}

/// A binary test operator names exactly the test that bash gives it: `op` reads as
/// test `t` if and only if `op` is one of `t`'s operators.
pub proof fn law_binary_operator_table(op: Seq<char>, t: BinaryPredicate)
    ensures
        spec_binary_operator(op) == Some(t) <==> binary_operator_names(t).contains(op),
{
    reveal_strlit("=");
    assert("="@.len() == 1 && "="@[0] == '=');
    assert("="@ =~= seq!['=']);
    reveal_strlit("==");
    assert("=="@.len() == 2 && "=="@[0] == '=' && "=="@[1] == '=');
    assert("=="@ =~= seq!['=', '=']);
    reveal_strlit("!=");
    assert("!="@.len() == 2 && "!="@[0] == '!' && "!="@[1] == '=');
    assert("!="@ =~= seq!['!', '=']);
    reveal_strlit("<");
    assert("<"@.len() == 1 && "<"@[0] == '<');
    assert("<"@ =~= seq!['<']);
    reveal_strlit(">");
    assert(">"@.len() == 1 && ">"@[0] == '>');
    assert(">"@ =~= seq!['>']);
    reveal_strlit("-eq");
    assert("-eq"@.len() == 3 && "-eq"@[0] == '-' && "-eq"@[1] == 'e' && "-eq"@[2] == 'q');
    assert("-eq"@ =~= seq!['-', 'e', 'q']);
    reveal_strlit("-ne");
    assert("-ne"@.len() == 3 && "-ne"@[0] == '-' && "-ne"@[1] == 'n' && "-ne"@[2] == 'e');
    assert("-ne"@ =~= seq!['-', 'n', 'e']);
    reveal_strlit("-lt");
    assert("-lt"@.len() == 3 && "-lt"@[0] == '-' && "-lt"@[1] == 'l' && "-lt"@[2] == 't');
    assert("-lt"@ =~= seq!['-', 'l', 't']);
    reveal_strlit("-le");
    assert("-le"@.len() == 3 && "-le"@[0] == '-' && "-le"@[1] == 'l' && "-le"@[2] == 'e');
    assert("-le"@ =~= seq!['-', 'l', 'e']);
    reveal_strlit("-gt");
    assert("-gt"@.len() == 3 && "-gt"@[0] == '-' && "-gt"@[1] == 'g' && "-gt"@[2] == 't');
    assert("-gt"@ =~= seq!['-', 'g', 't']);
    reveal_strlit("-ge");
    assert("-ge"@.len() == 3 && "-ge"@[0] == '-' && "-ge"@[1] == 'g' && "-ge"@[2] == 'e');
    assert("-ge"@ =~= seq!['-', 'g', 'e']);
    reveal_strlit("-nt");
    assert("-nt"@.len() == 3 && "-nt"@[0] == '-' && "-nt"@[1] == 'n' && "-nt"@[2] == 't');
    assert("-nt"@ =~= seq!['-', 'n', 't']);
    reveal_strlit("-ot");
    assert("-ot"@.len() == 3 && "-ot"@[0] == '-' && "-ot"@[1] == 'o' && "-ot"@[2] == 't');
    assert("-ot"@ =~= seq!['-', 'o', 't']);
    reveal_strlit("-ef");
    assert("-ef"@.len() == 3 && "-ef"@[0] == '-' && "-ef"@[1] == 'e' && "-ef"@[2] == 'f');
    assert("-ef"@ =~= seq!['-', 'e', 'f']);
    reveal_strlit("=~");
    assert("=~"@.len() == 2 && "=~"@[0] == '=' && "=~"@[1] == '~');
    assert("=~"@ =~= seq!['=', '~']);
    if binary_operator_names(t).contains(op) {
        match t {
            BinaryPredicate::StringExactlyMatchesPattern => {
                if op == seq!['='] {
                    assert(op.len() == 1 && op[0] == '=');
                }
                if op == seq!['=', '='] {
                    assert(op.len() == 2 && op[0] == '=' && op[1] == '=');
                }
            },
            BinaryPredicate::StringDoesNotExactlyMatchPattern => {
                if op == seq!['!', '='] {
                    assert(op.len() == 2 && op[0] == '!' && op[1] == '=');
                }
            },
            BinaryPredicate::LeftSortsBeforeRight => {
                if op == seq!['<'] {
                    assert(op.len() == 1 && op[0] == '<');
                }
            },
            BinaryPredicate::LeftSortsAfterRight => {
                if op == seq!['>'] {
                    assert(op.len() == 1 && op[0] == '>');
                }
            },
            BinaryPredicate::ArithmeticEqualTo => {
                if op == seq!['-', 'e', 'q'] {
                    assert(op.len() == 3 && op[0] == '-' && op[1] == 'e' && op[2] == 'q');
                }
            },
            BinaryPredicate::ArithmeticNotEqualTo => {
                if op == seq!['-', 'n', 'e'] {
                    assert(op.len() == 3 && op[0] == '-' && op[1] == 'n' && op[2] == 'e');
                }
            },
            BinaryPredicate::ArithmeticLessThan => {
                if op == seq!['-', 'l', 't'] {
                    assert(op.len() == 3 && op[0] == '-' && op[1] == 'l' && op[2] == 't');
                }
            },
            BinaryPredicate::ArithmeticLessThanOrEqualTo => {
                if op == seq!['-', 'l', 'e'] {
                    assert(op.len() == 3 && op[0] == '-' && op[1] == 'l' && op[2] == 'e');
                }
            },
            BinaryPredicate::ArithmeticGreaterThan => {
                if op == seq!['-', 'g', 't'] {
                    assert(op.len() == 3 && op[0] == '-' && op[1] == 'g' && op[2] == 't');
                }
            },
            BinaryPredicate::ArithmeticGreaterThanOrEqualTo => {
                if op == seq!['-', 'g', 'e'] {
                    assert(op.len() == 3 && op[0] == '-' && op[1] == 'g' && op[2] == 'e');
                }
            },
            BinaryPredicate::LeftFileIsNewerOrExistsWhenRightDoesNot => {
                if op == seq!['-', 'n', 't'] {
                    assert(op.len() == 3 && op[0] == '-' && op[1] == 'n' && op[2] == 't');
                }
            },
            BinaryPredicate::LeftFileIsOlderOrDoesNotExistWhenRightDoes => {
                if op == seq!['-', 'o', 't'] {
                    assert(op.len() == 3 && op[0] == '-' && op[1] == 'o' && op[2] == 't');
                }
            },
            BinaryPredicate::FilesReferToSameDeviceAndInodeNumbers => {
                if op == seq!['-', 'e', 'f'] {
                    assert(op.len() == 3 && op[0] == '-' && op[1] == 'e' && op[2] == 'f');
                }
            },
            BinaryPredicate::StringMatchesRegex => {
                if op == seq!['=', '~'] {
                    assert(op.len() == 2 && op[0] == '=' && op[1] == '~');
                }
            },
        }
    }
}

/// Some entry of an and-or list is joined by `&&`.
pub open spec fn has_and(l: Seq<SAndOr>) -> bool {
    exists|i: int| 0 <= i < l.len() && (#[trigger] l[i]) is And
}

/// Some entry of an and-or list is joined by `||`.
pub open spec fn has_or(l: Seq<SAndOr>) -> bool {
    exists|i: int| 0 <= i < l.len() && (#[trigger] l[i]) is Or
}

proof fn lemma_and_or_rest_ops(
    s: Seq<char>,
    p0: int,
    cur: int,
    o: ParserOptions,
    first: SPipeline,
    acc: Seq<SAndOr>,
)
    requires
        0 <= p0 <= cur <= s.len(),
        has_and(acc) ==> has_char_in(s, p0, cur, '&'),
        has_or(acc) ==> has_char_in(s, p0, cur, '|'),
    ensures
        ({
            let (e, l) = and_or_rest(s, cur, o, first, acc);
            &&& cur <= e <= s.len()
            &&& l.first == first
            &&& l.additional.len() >= acc.len()
            &&& l.additional.subrange(0, acc.len() as int) == acc
            &&& l.additional.len() > acc.len() ==> (l.additional[acc.len() as int] is And <==> at(
                s,
                spaces_end(s, cur),
                '&',
            ))
            &&& has_and(l.additional) ==> has_char_in(s, p0, e, '&')
            &&& has_or(l.additional) ==> has_char_in(s, p0, e, '|')
        }),
    decreases s.len() - cur,
{
    lemma_leaves(s, cur);
    let q = spaces_end(s, cur);
    let (e, l) = and_or_rest(s, cur, o, first, acc);
    match and_or_op(s, q) {
        None => {
            assert(l.additional.subrange(0, acc.len() as int) =~= acc);
        },
        Some(is_and) => {
            lemma_leaves(s, q + 2);
            let r = linebreak_end(s, q + 2);
            match spec_pipeline(s, r, o) {
                Some((e1, pl)) => {
                    if adv(s, r, e1) {
                        let item = if is_and {
                            SAndOr::And(pl)
                        } else {
                            SAndOr::Or(pl)
                        };
                        let acc2 = acc.push(item);
                        assert(has_and(acc2) ==> has_char_in(s, p0, e1, '&')) by {
                            if has_and(acc2) {
                                let i = choose|i: int| 0 <= i < acc2.len() && (#[trigger] acc2[i]) is And;
                                if i < acc.len() {
                                    assert(acc[i] == acc2[i]);
                                    assert(has_and(acc));
                                    let k = choose|k: int| p0 <= k < cur && #[trigger] s[k] == '&';
                                    assert(p0 <= k < e1 && s[k] == '&');
                                } else {
                                    assert(s[q] == '&');
                                }
                            }
                        }
                        assert(has_or(acc2) ==> has_char_in(s, p0, e1, '|')) by {
                            if has_or(acc2) {
                                let i = choose|i: int| 0 <= i < acc2.len() && (#[trigger] acc2[i]) is Or;
                                if i < acc.len() {
                                    assert(acc[i] == acc2[i]);
                                    assert(has_or(acc));
                                    let k = choose|k: int| p0 <= k < cur && #[trigger] s[k] == '|';
                                    assert(p0 <= k < e1 && s[k] == '|');
                                } else {
                                    assert(s[q] == '|');
                                }
                            }
                        }
                        lemma_and_or_rest_ops(s, p0, e1, o, first, acc2);
                        assert(l.additional.subrange(0, acc2.len() as int) == acc2);
                        assert(l.additional[acc.len() as int] == l.additional.subrange(
                            0,
                            acc2.len() as int,
                        )[acc.len() as int]);
                        assert(l.additional.subrange(0, acc.len() as int) =~= l.additional.subrange(
                            0,
                            acc2.len() as int,
                        ).subrange(0, acc.len() as int));
                    } else {
                        assert(l.additional.subrange(0, acc.len() as int) =~= acc);
                    }
                },
                None => {
                    assert(l.additional.subrange(0, acc.len() as int) =~= acc);
                },
            }
        },
    }
}

/// In an and-or list a pipeline is joined by `&&` only where a `&` was read and by
/// `||` only where a `|` was read; the first joint is `&&` exactly when the operator
/// read after the first pipeline (spaces skipped) starts with `&`.
pub proof fn law_and_or_operators(s: Seq<char>, p: int, o: ParserOptions)
    requires
        0 <= p <= s.len(),
    ensures
        spec_and_or(s, p, o) matches Some((e, l)) ==> {
            &&& (forall|k: int| p <= k < e ==> #[trigger] s[k] != '&') ==> !has_and(l.additional)
            &&& (forall|k: int| p <= k < e ==> #[trigger] s[k] != '|') ==> !has_or(l.additional)
            &&& spec_pipeline(s, p, o) matches Some((e1, pl)) && l.first == pl && (l.additional.len()
                > 0 ==> (l.additional[0] is And <==> at(s, spaces_end(s, e1), '&')))
        },
{
    if let Some((e, l)) = spec_and_or(s, p, o) {
        let (e1, pl) = spec_pipeline(s, p, o).unwrap();
        lemma_and_or_rest_ops(s, p, e1, o, pl, Seq::empty());
        if forall|k: int| p <= k < e ==> #[trigger] s[k] != '&' {
            if has_and(l.additional) {
                let k = choose|k: int| p <= k < e && #[trigger] s[k] == '&';
            }
        }
        if forall|k: int| p <= k < e ==> #[trigger] s[k] != '|' {
            if has_or(l.additional) {
                let k = choose|k: int| p <= k < e && #[trigger] s[k] == '|';
            }
        }
    }
}

proof fn lemma_pipeline_rest_bang(s: Seq<char>, cur: int, o: ParserOptions, bang: bool, acc: Seq<SCommand>)
    ensures
        pipeline_rest(s, cur, o, bang, acc).1.bang == bang,
    decreases s.len() - cur,
{
    if 0 <= cur <= s.len() {
        lemma_leaves(s, cur);
        let q = spaces_end(s, cur);
        if at(s, q, '|') && !at(s, q + 1, '|') {
            lemma_leaves(s, q + 1);
            lemma_leaves(s, linebreak_end(s, q + 1));
            let r = spaces_end(s, linebreak_end(s, q + 1));
            if let Some((e, c)) = spec_command(s, r, o) {
                if adv(s, r, e) {
                    lemma_pipeline_rest_bang(s, e, o, bang, acc.push(c));
                }
            }
        }
    }
}

/// A pipeline is negated exactly when it opens (spaces skipped) with `!` followed by
/// a blank.
pub proof fn law_pipeline_bang(s: Seq<char>, p: int, o: ParserOptions)
    requires
        0 <= p <= s.len(),
    ensures
        spec_pipeline(s, p, o) matches Some((e, pl)) ==> (pl.bang <==> {
            let q = spaces_end(s, p);
            at(s, q, '!') && (at(s, q + 1, ' ') || at(s, q + 1, '\t'))
        }),
{
    if let Some((e, pl)) = spec_pipeline(s, p, o) {
        lemma_leaves(s, p);
        let q = spaces_end(s, p);
        let bang = at(s, q, '!') && (at(s, q + 1, ' ') || at(s, q + 1, '\t'));
        let c = if bang {
            spaces_end(s, q + 1)
        } else {
            q
        };
        let (e0, cmd) = spec_command(s, c, o).unwrap();
        lemma_pipeline_rest_bang(s, e0, o, bang, seq![cmd]);
    }
}

/// A `while` or `until` loop's condition is the compound list read right after its
/// keyword, and its body the `do ... done` group read right after the condition.
pub proof fn law_while_clause_parts(s: Seq<char>, p: int, o: ParserOptions, kw: Seq<char>)
    requires
        0 <= p <= s.len(),
    ensures
        spec_while_clause(s, p, o, kw) matches Some((e, w)) ==> {
            &&& spec_keyword(s, p, kw) matches Some(q)
            &&& spec_compound_list(s, q, o) matches Some((e1, cond))
            &&& w.condition == cond
            &&& spec_do_group(s, e1, o) == Some((e, w.body))
        },
{
}

/// A `for` loop's variable is the name read right after the `for` keyword.
pub proof fn law_for_clause_variable(s: Seq<char>, p: int, o: ParserOptions)
    requires
        0 <= p <= s.len(),
    ensures
        spec_for_clause(s, p, o) matches Some((e, f)) ==> {
            &&& spec_keyword(s, p, "for"@) matches Some(q)
            &&& spec_name(s, q) matches Some((e1, v))
            &&& f.variable_name == v
        },
{
}

/// The kind of a compound command is fixed by how it opens (spaces skipped): a loop
/// read as `while` opens with the keyword `while`, one read as `until` with `until`,
/// an `if` clause with `if`, a `case` clause with `case`, a `for` loop with `for`,
/// and a brace group with `{`, ending with `}`.
pub proof fn law_compound_command_kind(s: Seq<char>, p: int, o: ParserOptions)
    requires
        0 <= p <= s.len(),
    ensures
        spec_compound_command(s, p, o) matches Some((e, c)) ==> {
            let q = spaces_end(s, p);
            &&& c is WhileClause ==> spec_keyword(s, q, "while"@) is Some
            &&& c is UntilClause ==> spec_keyword(s, q, "until"@) is Some
            &&& c is IfClause ==> spec_keyword(s, q, "if"@) is Some
            &&& c is CaseClause ==> spec_keyword(s, q, "case"@) is Some
            &&& c is ForClause ==> spec_keyword(s, q, "for"@) is Some
            &&& c is BraceGroup ==> at(s, q, '{') && 0 < e <= s.len() && s[e - 1] == '}'
        },
{
    reveal_strlit("while");
    reveal_strlit("until");
    lemma_leaves(s, p);
}

/// An `elif` part's condition is the compound list read right after `elif`, and its
/// body the one read right after the `then` that follows; an `else` part has no
/// condition, and its body is the compound list read right after `else`.
pub proof fn law_else_parts(s: Seq<char>, p: int, o: ParserOptions)
    requires
        0 <= p <= s.len(),
    ensures
        spec_elif_clause(s, p, o) matches Some((e, c)) ==> {
            &&& spec_keyword(s, p, "elif"@) matches Some(q)
            &&& spec_compound_list(s, q, o) matches Some((e1, cond))
            &&& c.condition == Some(cond)
            &&& spec_keyword(s, e1, "then"@) matches Some(q2)
            &&& spec_compound_list(s, q2, o) == Some((e, c.body))
        },
        spec_else_clause(s, p, o) matches Some((e, c)) ==> {
            &&& c.condition is None
            &&& spec_keyword(s, p, "else"@) matches Some(q)
            &&& spec_compound_list(s, q, o) == Some((e, c.body))
        },
{
}

/// An `if` clause whose body is followed directly by `fi` has no `elif` or `else`
/// parts.
pub proof fn law_if_without_else(s: Seq<char>, p: int, o: ParserOptions)
    requires
        0 <= p <= s.len(),
    ensures
        spec_if_clause(s, p, o) matches Some((e, c)) ==> ({
            let q = spec_keyword(s, p, "if"@).unwrap();
            let e1 = spec_compound_list(s, q, o).unwrap().0;
            let q2 = spec_keyword(s, e1, "then"@).unwrap();
            let e2 = spec_compound_list(s, q2, o).unwrap().0;
            spec_keyword(s, e2, "fi"@) is Some ==> c.elses is None
        }),
{
    reveal(spec_keyword);
    reveal_strlit("fi");
    reveal_strlit("elif");
    reveal_strlit("else");
    if let Some((e, c)) = spec_if_clause(s, p, o) {
        let q = spec_keyword(s, p, "if"@).unwrap();
        let e1 = spec_compound_list(s, q, o).unwrap().0;
        let q2 = spec_keyword(s, e1, "then"@).unwrap();
        let e2 = spec_compound_list(s, q2, o).unwrap().0;
        if spec_keyword(s, e2, "fi"@) is Some {
            let a = spaces_end(s, e2);
            assert(s[a] == "fi"@[0]);
            assert(spec_keyword(s, e2, "elif"@) is None) by {
                if lit_at(s, a, "elif"@) {
                    assert(s.subrange(a, a + 4)[0] == s[a]);
                }
            }
            assert(spec_elif_clause(s, e2, o) is None);
            assert(elif_rest(s, e2, o, Seq::empty()) == (e2, Seq::<SElseClause>::empty()));
            assert(spec_keyword(s, e2, "else"@) is None) by {
                if lit_at(s, a, "else"@) {
                    assert(s.subrange(a, a + 4)[0] == s[a]);
                }
            }
            assert(spec_else_clause(s, e2, o) is None);
        }
    }
}

} // verus!
