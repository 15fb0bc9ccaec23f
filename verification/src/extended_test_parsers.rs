//! Extended test commands `[[ ... ]]`: their whitespace, their operators and the
//! word they test.

use vstd::prelude::*;
use crate::ast::{
    span, BinaryPredicate, ExtendedTestExpr, ExtendedTestExprCommand, SExtendedTestExpr,
    SExtendedTestExprCommand, SWord, SourceSpan, UnaryPredicate, Word,
};
use crate::char_parsers::{
    array_spaces, array_spaces_end, at, lemma_gap_end, lemma_run_end, run_end,
};
use crate::chars::{chars_of, string_from_chars};
use crate::word_parsers::{dq_scan, double_quoted_string, lemma_dq_scan, text_eq};

verus! {

pub open spec fn spec_unary_operator(op: Seq<char>) -> Option<UnaryPredicate> {
    if op == "-e"@ {
        Some(UnaryPredicate::FileExists)
    } else if op == "-b"@ {
        Some(UnaryPredicate::FileExistsAndIsBlockSpecialFile)
    } else if op == "-c"@ {
        Some(UnaryPredicate::FileExistsAndIsCharSpecialFile)
    } else if op == "-d"@ {
        Some(UnaryPredicate::FileExistsAndIsDir)
    } else if op == "-f"@ {
        Some(UnaryPredicate::FileExistsAndIsRegularFile)
    } else if op == "-g"@ {
        Some(UnaryPredicate::FileExistsAndIsSetgid)
    } else if op == "-h"@ {
        Some(UnaryPredicate::FileExistsAndIsSymlink)
    } else if op == "-L"@ {
        Some(UnaryPredicate::FileExistsAndIsSymlink)
    } else if op == "-k"@ {
        Some(UnaryPredicate::FileExistsAndHasStickyBit)
    } else if op == "-p"@ {
        Some(UnaryPredicate::FileExistsAndIsFifo)
    } else if op == "-r"@ {
        Some(UnaryPredicate::FileExistsAndIsReadable)
    } else if op == "-s"@ {
        Some(UnaryPredicate::FileExistsAndIsNotZeroLength)
    } else if op == "-t"@ {
        Some(UnaryPredicate::FdIsOpenTerminal)
    } else if op == "-u"@ {
        Some(UnaryPredicate::FileExistsAndIsSetuid)
    } else if op == "-w"@ {
        Some(UnaryPredicate::FileExistsAndIsWritable)
    } else if op == "-x"@ {
        Some(UnaryPredicate::FileExistsAndIsExecutable)
    } else if op == "-G"@ {
        Some(UnaryPredicate::FileExistsAndOwnedByEffectiveGroupId)
    } else if op == "-N"@ {
        Some(UnaryPredicate::FileExistsAndModifiedSinceLastRead)
    } else if op == "-O"@ {
        Some(UnaryPredicate::FileExistsAndOwnedByEffectiveUserId)
    } else if op == "-S"@ {
        Some(UnaryPredicate::FileExistsAndIsSocket)
    } else if op == "-o"@ {
        Some(UnaryPredicate::ShellOptionEnabled)
    } else if op == "-v"@ {
        Some(UnaryPredicate::ShellVariableIsSetAndAssigned)
    } else if op == "-R"@ {
        Some(UnaryPredicate::ShellVariableIsSetAndNameRef)
    } else if op == "-z"@ {
        Some(UnaryPredicate::StringHasZeroLength)
    } else if op == "-n"@ {
        Some(UnaryPredicate::StringHasNonZeroLength)
    } else {
        None
    }
}

pub open spec fn spec_binary_operator(op: Seq<char>) -> Option<BinaryPredicate> {
    if op == "="@ {
        Some(BinaryPredicate::StringExactlyMatchesPattern)
    } else if op == "=="@ {
        Some(BinaryPredicate::StringExactlyMatchesPattern)
    } else if op == "!="@ {
        Some(BinaryPredicate::StringDoesNotExactlyMatchPattern)
    } else if op == "<"@ {
        Some(BinaryPredicate::LeftSortsBeforeRight)
    } else if op == ">"@ {
        Some(BinaryPredicate::LeftSortsAfterRight)
    } else if op == "-eq"@ {
        Some(BinaryPredicate::ArithmeticEqualTo)
    } else if op == "-ne"@ {
        Some(BinaryPredicate::ArithmeticNotEqualTo)
    } else if op == "-lt"@ {
        Some(BinaryPredicate::ArithmeticLessThan)
    } else if op == "-le"@ {
        Some(BinaryPredicate::ArithmeticLessThanOrEqualTo)
    } else if op == "-gt"@ {
        Some(BinaryPredicate::ArithmeticGreaterThan)
    } else if op == "-ge"@ {
        Some(BinaryPredicate::ArithmeticGreaterThanOrEqualTo)
    } else if op == "-nt"@ {
        Some(BinaryPredicate::LeftFileIsNewerOrExistsWhenRightDoesNot)
    } else if op == "-ot"@ {
        Some(BinaryPredicate::LeftFileIsOlderOrDoesNotExistWhenRightDoes)
    } else if op == "-ef"@ {
        Some(BinaryPredicate::FilesReferToSameDeviceAndInodeNumbers)
    } else if op == "=~"@ {
        Some(BinaryPredicate::StringMatchesRegex)
    } else {
        None
    }
}

/// The scan of a nested `$(...)`, `$((...))` or `${...}` inside a test word: `depth`
/// closers are still owed; a backslash takes the next character, quotes are skipped
/// whole.
pub open spec fn nest_scan(s: Seq<char>, p: int, open: char, close: char, depth: nat) -> Option<int>
    decreases s.len() - p,
{
    if depth == 0 {
        Some(p)
    } else if p < 0 || p >= s.len() {
        None
    } else if s[p] == open {
        nest_scan(s, p + 1, open, close, depth + 1)
    } else if s[p] == close {
        nest_scan(s, p + 1, open, close, (depth - 1) as nat)
    } else if s[p] == '\\' {
        if p + 1 < s.len() {
            nest_scan(s, p + 2, open, close, depth)
        } else {
            nest_scan(s, p + 1, open, close, depth)
        }
    } else if s[p] == '\'' {
        proof {
            lemma_run_end(s, p + 1, |c: char| c != '\'');
        }
        let e = run_end(s, p + 1, |c: char| c != '\'');
        if at(s, e, '\'') {
            nest_scan(s, e + 1, open, close, depth)
        } else {
            None
        }
    } else if s[p] == '"' {
        proof {
            lemma_dq_scan(s, p + 1);
        }
        match dq_scan(s, p + 1) {
            Some(e) => nest_scan(s, e, open, close, depth),
            None => None,
        }
    } else {
        nest_scan(s, p + 1, open, close, depth)
    }
}

pub proof fn lemma_nest_scan(s: Seq<char>, p: int, open: char, close: char, depth: nat)
    requires
        0 <= p <= s.len(),
    ensures
        nest_scan(s, p, open, close, depth) matches Some(e) ==> p <= e <= s.len(),
    decreases s.len() - p,
{
    if depth > 0 && p < s.len() {
        if s[p] == open {
            lemma_nest_scan(s, p + 1, open, close, depth + 1);
        } else if s[p] == close {
            lemma_nest_scan(s, p + 1, open, close, (depth - 1) as nat);
        } else if s[p] == '\\' {
            if p + 1 < s.len() {
                lemma_nest_scan(s, p + 2, open, close, depth);
            } else {
                lemma_nest_scan(s, p + 1, open, close, depth);
            }
        } else if s[p] == '\'' {
            lemma_run_end(s, p + 1, |c: char| c != '\'');
            let e = run_end(s, p + 1, |c: char| c != '\'');
            if at(s, e, '\'') {
                lemma_nest_scan(s, e + 1, open, close, depth);
            }
        } else if s[p] == '"' {
            lemma_dq_scan(s, p + 1);
            if let Some(e) = dq_scan(s, p + 1) {
                lemma_nest_scan(s, e, open, close, depth);
            }
        } else {
            lemma_nest_scan(s, p + 1, open, close, depth);
        }
    }
}

/// One step of a test word at `p`.
pub enum WordStep {
    /// The word ends here.
    Stop,
    /// The text here cannot be part of a word: the word fails.
    Fail,
    /// The characters up to the position are taken into the word.
    Take(usize),
    /// The characters up to the position are skipped (a backslash-newline).
    Skip(usize),
}

pub enum SWordStep {
    Stop,
    Fail,
    Take(int),
    Skip(int),
}

pub open spec fn view_step(st: WordStep) -> SWordStep {
    match st {
        WordStep::Stop => SWordStep::Stop,
        WordStep::Fail => SWordStep::Fail,
        WordStep::Take(e) => SWordStep::Take(e as int),
        WordStep::Skip(e) => SWordStep::Skip(e as int),
    }
}

/// What a test word does with the character at `p`: quoted strings are taken whole,
/// a backslash takes the next character (a backslash-newline is skipped), `$(...)`,
/// `$((...))` and `${...}` are taken with what they nest, whitespace and bare
/// parentheses end the word, as do `&&`, `||` and `!!`.
pub open spec fn ext_step(s: Seq<char>, p: int) -> SWordStep {
    if p < 0 || p >= s.len() {
        SWordStep::Stop
    } else {
        let c = s[p];
        if c == '\'' {
            let e = run_end(s, p + 1, |c: char| c != '\'');
            if at(s, e, '\'') {
                SWordStep::Take(e + 1)
            } else {
                SWordStep::Fail
            }
        } else if c == '"' {
            match dq_scan(s, p + 1) {
                Some(e) => SWordStep::Take(e),
                None => SWordStep::Fail,
            }
        } else if c == ' ' || c == '\t' || c == '\n' {
            SWordStep::Stop
        } else if c == '\\' {
            if p + 1 < s.len() {
                if s[p + 1] == '\n' {
                    SWordStep::Skip(p + 2)
                } else {
                    SWordStep::Take(p + 2)
                }
            } else {
                SWordStep::Take(p + 1)
            }
        } else if c == '$' {
            if at(s, p + 1, '(') {
                if at(s, p + 2, '(') {
                    match nest_scan(s, p + 3, '(', ')', 1) {
                        Some(e) => SWordStep::Take(
                            if at(s, e, ')') {
                                e + 1
                            } else {
                                e
                            },
                        ),
                        None => SWordStep::Fail,
                    }
                } else {
                    match nest_scan(s, p + 2, '(', ')', 1) {
                        Some(e) => SWordStep::Take(e),
                        None => SWordStep::Fail,
                    }
                }
            } else if at(s, p + 1, '{') {
                match nest_scan(s, p + 2, '{', '}', 1) {
                    Some(e) => SWordStep::Take(e),
                    None => SWordStep::Fail,
                }
            } else {
                SWordStep::Take(p + 1)
            }
        } else if c == '(' || c == ')' {
            SWordStep::Stop
        } else if c == '&' || c == '|' || c == '!' {
            if at(s, p + 1, c) {
                SWordStep::Stop
            } else {
                SWordStep::Take(p + 1)
            }
        } else {
            SWordStep::Take(p + 1)
        }
    }
}

pub proof fn lemma_ext_step(s: Seq<char>, p: int)
    requires
        0 <= p <= s.len(),
    ensures
        ext_step(s, p) matches SWordStep::Take(e) ==> p < e <= s.len(),
        ext_step(s, p) matches SWordStep::Skip(e) ==> p < e <= s.len(),
{
    if p < s.len() {
        lemma_run_end(s, p + 1, |c: char| c != '\'');
        lemma_dq_scan(s, p + 1);
        if p + 3 <= s.len() {
            lemma_nest_scan(s, p + 3, '(', ')', 1);
        }
        if p + 2 <= s.len() {
            lemma_nest_scan(s, p + 2, '(', ')', 1);
            lemma_nest_scan(s, p + 2, '{', '}', 1);
        }
    }
}

/// The rest of a test word from `p`: where it ends and its text.
pub open spec fn ext_word_rest(s: Seq<char>, p: int) -> Option<(int, Seq<char>)>
    decreases s.len() - p,
{
    if p < 0 || p > s.len() {
        None
    } else {
        proof {
            lemma_ext_step(s, p);
        }
        match ext_step(s, p) {
            SWordStep::Stop => Some((p, Seq::empty())),
            SWordStep::Fail => None,
            SWordStep::Take(e) => match ext_word_rest(s, e) {
                Some((e2, rest)) => Some((e2, s.subrange(p, e) + rest)),
                None => None,
            },
            SWordStep::Skip(e) => ext_word_rest(s, e),
        }
    }
}

/// A word in an extended test: adjacent quoted strings, escapes, expansions and other
/// characters; its text keeps the quotes and drops backslash-newlines. It must not be
/// empty.
pub open spec fn spec_ext_test_word(s: Seq<char>, p: int) -> Option<(int, SWord)> {
    match ext_word_rest(s, p) {
        Some((e, v)) => if v.len() > 0 {
            Some((e, SWord { value: v, loc: Some(span(p, e)) }))
        } else {
            None
        },
        None => None,
    }
}

pub proof fn lemma_ext_word_rest(s: Seq<char>, p: int)
    requires
        0 <= p <= s.len(),
    ensures
        ext_word_rest(s, p) matches Some((e, _)) ==> p <= e <= s.len(),
    decreases s.len() - p,
{
    lemma_ext_step(s, p);
    match ext_step(s, p) {
        SWordStep::Take(e) => lemma_ext_word_rest(s, e),
        SWordStep::Skip(e) => lemma_ext_word_rest(s, e),
        _ => {},
    }
}

/// `[[`, whitespace, one test word, whitespace, `]]`; the test is that the word is
/// not empty.
#[verifier::opaque]
pub open spec fn spec_extended_test_command(s: Seq<char>, p: int) -> Option<(int, SExtendedTestExprCommand)> {
    if at(s, p, '[') && at(s, p + 1, '[') {
        match spec_ext_test_word(s, array_spaces_end(s, p + 2)) {
            Some((e, w)) => {
                let r = array_spaces_end(s, e);
                if at(s, r, ']') && at(s, r + 1, ']') {
                    Some(
                        (
                            r + 2,
                            SExtendedTestExprCommand {
                                expr: SExtendedTestExpr::UnaryTest(
                                    UnaryPredicate::StringHasNonZeroLength,
                                    w,
                                ),
                                loc: span(p, r + 2),
                            },
                        ),
                    )
                } else {
                    None
                }
            },
            None => None,
        }
    } else {
        None
    }
}

pub proof fn lemma_extended_test_command(s: Seq<char>, p: int)
    requires
        0 <= p <= s.len(),
    ensures
        spec_extended_test_command(s, p) matches Some((e, _)) ==> p < e <= s.len(),
{
    reveal(spec_extended_test_command);
    if p + 2 <= s.len() {
        lemma_gap_end(s, p + 2, true);
        let q = array_spaces_end(s, p + 2);
        lemma_ext_word_rest(s, q);
        if let Some((e, w)) = spec_ext_test_word(s, q) {
            lemma_gap_end(s, e, true);
        }
    }
}

// ---------------------------------------------------------------- exec

/// Whitespace inside `[[ ]]`: blanks, newlines, comments and backslash-newlines.
pub fn ext_test_spaces(s: &[char], pos: usize) -> (e: usize)
    requires
        pos <= s@.len(),
    ensures
        e == array_spaces_end(s@, pos as int),
        pos <= e <= s@.len(),
{
    array_spaces(s, pos)
}

/// The unary test operator that `op` names (`-e`, `-f`, `-z`, ...), if any.
pub fn parse_unary_operator(op: &str) -> (r: Option<UnaryPredicate>)
    ensures
        r == spec_unary_operator(op@),
{
    let cs = chars_of(op);
    let n = cs.len();
    let t = cs.as_slice();
    proof {
        assert(t@.subrange(0, n as int) =~= op@);
    }
    if text_eq(t, 0, n, "-e") {
        Some(UnaryPredicate::FileExists)
    } else if text_eq(t, 0, n, "-b") {
        Some(UnaryPredicate::FileExistsAndIsBlockSpecialFile)
    } else if text_eq(t, 0, n, "-c") {
        Some(UnaryPredicate::FileExistsAndIsCharSpecialFile)
    } else if text_eq(t, 0, n, "-d") {
        Some(UnaryPredicate::FileExistsAndIsDir)
    } else if text_eq(t, 0, n, "-f") {
        Some(UnaryPredicate::FileExistsAndIsRegularFile)
    } else if text_eq(t, 0, n, "-g") {
        Some(UnaryPredicate::FileExistsAndIsSetgid)
    } else if text_eq(t, 0, n, "-h") {
        Some(UnaryPredicate::FileExistsAndIsSymlink)
    } else if text_eq(t, 0, n, "-L") {
        Some(UnaryPredicate::FileExistsAndIsSymlink)
    } else if text_eq(t, 0, n, "-k") {
        Some(UnaryPredicate::FileExistsAndHasStickyBit)
    } else if text_eq(t, 0, n, "-p") {
        Some(UnaryPredicate::FileExistsAndIsFifo)
    } else if text_eq(t, 0, n, "-r") {
        Some(UnaryPredicate::FileExistsAndIsReadable)
    } else if text_eq(t, 0, n, "-s") {
        Some(UnaryPredicate::FileExistsAndIsNotZeroLength)
    } else if text_eq(t, 0, n, "-t") {
        Some(UnaryPredicate::FdIsOpenTerminal)
    } else if text_eq(t, 0, n, "-u") {
        Some(UnaryPredicate::FileExistsAndIsSetuid)
    } else if text_eq(t, 0, n, "-w") {
        Some(UnaryPredicate::FileExistsAndIsWritable)
    } else if text_eq(t, 0, n, "-x") {
        Some(UnaryPredicate::FileExistsAndIsExecutable)
    } else if text_eq(t, 0, n, "-G") {
        Some(UnaryPredicate::FileExistsAndOwnedByEffectiveGroupId)
    } else if text_eq(t, 0, n, "-N") {
        Some(UnaryPredicate::FileExistsAndModifiedSinceLastRead)
    } else if text_eq(t, 0, n, "-O") {
        Some(UnaryPredicate::FileExistsAndOwnedByEffectiveUserId)
    } else if text_eq(t, 0, n, "-S") {
        Some(UnaryPredicate::FileExistsAndIsSocket)
    } else if text_eq(t, 0, n, "-o") {
        Some(UnaryPredicate::ShellOptionEnabled)
    } else if text_eq(t, 0, n, "-v") {
        Some(UnaryPredicate::ShellVariableIsSetAndAssigned)
    } else if text_eq(t, 0, n, "-R") {
        Some(UnaryPredicate::ShellVariableIsSetAndNameRef)
    } else if text_eq(t, 0, n, "-z") {
        Some(UnaryPredicate::StringHasZeroLength)
    } else if text_eq(t, 0, n, "-n") {
        Some(UnaryPredicate::StringHasNonZeroLength)
    } else {
        None
    }
}

/// The binary test operator that `op` names (`=`, `!=`, `-eq`, `=~`, ...), if any.
pub fn parse_binary_operator(op: &str) -> (r: Option<BinaryPredicate>)
    ensures
        r == spec_binary_operator(op@),
{
    let cs = chars_of(op);
    let n = cs.len();
    let t = cs.as_slice();
    proof {
        assert(t@.subrange(0, n as int) =~= op@);
    }
    if text_eq(t, 0, n, "=") {
        Some(BinaryPredicate::StringExactlyMatchesPattern)
    } else if text_eq(t, 0, n, "==") {
        Some(BinaryPredicate::StringExactlyMatchesPattern)
    } else if text_eq(t, 0, n, "!=") {
        Some(BinaryPredicate::StringDoesNotExactlyMatchPattern)
    } else if text_eq(t, 0, n, "<") {
        Some(BinaryPredicate::LeftSortsBeforeRight)
    } else if text_eq(t, 0, n, ">") {
        Some(BinaryPredicate::LeftSortsAfterRight)
    } else if text_eq(t, 0, n, "-eq") {
        Some(BinaryPredicate::ArithmeticEqualTo)
    } else if text_eq(t, 0, n, "-ne") {
        Some(BinaryPredicate::ArithmeticNotEqualTo)
    } else if text_eq(t, 0, n, "-lt") {
        Some(BinaryPredicate::ArithmeticLessThan)
    } else if text_eq(t, 0, n, "-le") {
        Some(BinaryPredicate::ArithmeticLessThanOrEqualTo)
    } else if text_eq(t, 0, n, "-gt") {
        Some(BinaryPredicate::ArithmeticGreaterThan)
    } else if text_eq(t, 0, n, "-ge") {
        Some(BinaryPredicate::ArithmeticGreaterThanOrEqualTo)
    } else if text_eq(t, 0, n, "-nt") {
        Some(BinaryPredicate::LeftFileIsNewerOrExistsWhenRightDoesNot)
    } else if text_eq(t, 0, n, "-ot") {
        Some(BinaryPredicate::LeftFileIsOlderOrDoesNotExistWhenRightDoes)
    } else if text_eq(t, 0, n, "-ef") {
        Some(BinaryPredicate::FilesReferToSameDeviceAndInodeNumbers)
    } else if text_eq(t, 0, n, "=~") {
        Some(BinaryPredicate::StringMatchesRegex)
    } else {
        None
    }
}

fn nest(s: &[char], p: usize, open: char, close: char) -> (r: Option<usize>)
    requires
        p <= s@.len(),
    ensures
        r matches Some(e) ==> nest_scan(s@, p as int, open, close, 1) == Some(e as int),
        r is None ==> nest_scan(s@, p as int, open, close, 1) is None,
        r matches Some(e) ==> p <= e <= s@.len(),
{
    proof {
        lemma_nest_scan(s@, p as int, open, close, 1);
    }
    let n = s.len();
    let mut i = p;
    let mut depth: u128 = 1;
    while depth > 0
        invariant
            p <= i <= n == s@.len(),
            n <= usize::MAX,
            depth <= 1 + (i - p),
            nest_scan(s@, i as int, open, close, depth as nat) == nest_scan(s@, p as int, open, close, 1),
        decreases n - i,
    {
        if i >= n {
            return None;
        }
        let c = s[i];
        if c == open {
            depth = depth + 1;
            i = i + 1;
        } else if c == close {
            depth = depth - 1;
            i = i + 1;
        } else if c == '\\' {
            if i + 1 < n {
                i = i + 2;
            } else {
                i = i + 1;
            }
        } else if c == '\'' {
            let mut e = i + 1;
            while e < n && s[e] != '\''
                invariant
                    i < e <= n == s@.len(),
                    run_end(s@, e as int, |c: char| c != '\'') == run_end(s@, i + 1, |c: char| c != '\''),
                decreases n - e,
            {
                e = e + 1;
            }
            if e < n {
                i = e + 1;
            } else {
                return None;
            }
        } else if c == '"' {
            proof {
                lemma_dq_scan(s@, i + 1);
            }
            match double_quoted_string(s, i) {
                Some(e) => {
                    i = e;
                },
                None => {
                    return None;
                },
            }
        } else {
            i = i + 1;
        }
    }
    Some(i)
}

fn ext_step_exec(s: &[char], p: usize) -> (r: WordStep)
    requires
        p <= s@.len(),
    ensures
        view_step(r) == ext_step(s@, p as int),
{
    let n = s.len();
    if p >= n {
        return WordStep::Stop;
    }
    let c = s[p];
    let next = if n - p > 1 {
        Some(s[p + 1])
    } else {
        None
    };
    if c == '\'' {
        let mut e = p + 1;
        while e < n && s[e] != '\''
            invariant
                p < e <= n == s@.len(),
                run_end(s@, e as int, |c: char| c != '\'') == run_end(s@, p + 1, |c: char| c != '\''),
            decreases n - e,
        {
            e = e + 1;
        }
        if e < n {
            WordStep::Take(e + 1)
        } else {
            WordStep::Fail
        }
    } else if c == '"' {
        match double_quoted_string(s, p) {
            Some(e) => WordStep::Take(e),
            None => WordStep::Fail,
        }
    } else if c == ' ' || c == '\t' || c == '\n' {
        WordStep::Stop
    } else if c == '\\' {
        match next {
            Some('\n') => WordStep::Skip(p + 2),
            Some(_) => WordStep::Take(p + 2),
            None => WordStep::Take(p + 1),
        }
    } else if c == '$' {
        if next == Some('(') {
            if n - p > 2 && s[p + 2] == '(' {
                match nest(s, p + 3, '(', ')') {
                    Some(e) => WordStep::Take(
                        if e < n && s[e] == ')' {
                            e + 1
                        } else {
                            e
                        },
                    ),
                    None => WordStep::Fail,
                }
            } else {
                match nest(s, p + 2, '(', ')') {
                    Some(e) => WordStep::Take(e),
                    None => WordStep::Fail,
                }
            }
        } else if next == Some('{') {
            match nest(s, p + 2, '{', '}') {
                Some(e) => WordStep::Take(e),
                None => WordStep::Fail,
            }
        } else {
            WordStep::Take(p + 1)
        }
    } else if c == '(' || c == ')' {
        WordStep::Stop
    } else if c == '&' || c == '|' || c == '!' {
        if next == Some(c) {
            WordStep::Stop
        } else {
            WordStep::Take(p + 1)
        }
    } else {
        WordStep::Take(p + 1)
    }
}

/// A word in an extended test expression (see `spec_ext_test_word`).
pub fn ext_test_word(s: &[char], pos: usize) -> (r: Option<(usize, Word)>)
    requires
        pos <= s@.len(),
    ensures
        r matches Some((e, w)) ==> spec_ext_test_word(s@, pos as int) == Some((e as int, w@)),
        r is None ==> spec_ext_test_word(s@, pos as int) is None,
        r matches Some((e, w)) ==> pos <= e <= s@.len(),
{
    proof {
        lemma_ext_word_rest(s@, pos as int);
    }
    let mut buf: Vec<char> = Vec::new();
    let mut i = pos;
    loop
        invariant
            pos <= i <= s@.len(),
            match ext_word_rest(s@, i as int) {
                Some((e, rest)) => ext_word_rest(s@, pos as int) == Some((e, buf@ + rest)),
                None => ext_word_rest(s@, pos as int) is None,
            },
        decreases s@.len() - i,
    {
        proof {
            lemma_ext_step(s@, i as int);
        }
        match ext_step_exec(s, i) {
            WordStep::Stop => {
                proof {
                    assert(buf@ + Seq::<char>::empty() =~= buf@);
                }
                if buf.len() == 0 {
                    return None;
                }
                let value = string_from_chars(buf.as_slice(), 0, buf.len());
                proof {
                    assert(buf@.subrange(0, buf@.len() as int) =~= buf@);
                }
                return Some((i, Word { value, loc: Some(SourceSpan { start: pos, end: i }) }));
            },
            WordStep::Fail => {
                return None;
            },
            WordStep::Take(e) => {
                let ghost old_buf = buf@;
                let mut k = i;
                while k < e
                    invariant
                        i <= k <= e <= s@.len(),
                        buf@ == old_buf + s@.subrange(i as int, k as int),
                    decreases e - k,
                {
                    buf.push(s[k]);
                    assert(s@.subrange(i as int, k + 1) =~= s@.subrange(i as int, k as int).push(s@[k as int]));
                    assert(buf@ =~= old_buf + s@.subrange(i as int, k + 1));
                    k = k + 1;
                }
                proof {
                    if let Some((e2, rest)) = ext_word_rest(s@, e as int) {
                        assert(old_buf + (s@.subrange(i as int, e as int) + rest) =~= buf@ + rest);
                    }
                }
                i = e;
            },
            WordStep::Skip(e) => {
                i = e;
            },
        }
    }
}

/// An extended test command `[[ word ]]`, testing that the word is not empty.
pub fn extended_test_command(s: &[char], pos: usize) -> (r: Option<(usize, ExtendedTestExprCommand)>)
    requires
        pos <= s@.len(),
    ensures
        r matches Some((e, c)) ==> spec_extended_test_command(s@, pos as int) == Some((e as int, c@)),
        r is None ==> spec_extended_test_command(s@, pos as int) is None,
        r matches Some((e, c)) ==> pos < e <= s@.len(),
{
    proof {
        reveal(spec_extended_test_command);
        lemma_extended_test_command(s@, pos as int);
    }
    let n = s.len();
    if !(pos < n && s[pos] == '[' && n - pos > 1 && s[pos + 1] == '[') {
        return None;
    }
    let q = ext_test_spaces(s, pos + 2);
    let (e, word) = match ext_test_word(s, q) {
        Some(x) => x,
        None => {
            return None;
        },
    };
    let r = ext_test_spaces(s, e);
    if !(r < n && s[r] == ']' && n - r > 1 && s[r + 1] == ']') {
        return None;
    }
    let expr = ExtendedTestExpr::UnaryTest(UnaryPredicate::StringHasNonZeroLength, word);
    Some((r + 2, ExtendedTestExprCommand { expr, loc: SourceSpan { start: pos, end: r + 2 } }))
}

} // verus!
