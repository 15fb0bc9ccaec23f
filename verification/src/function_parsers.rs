//! Function definitions and function names.

use vstd::prelude::*;
use crate::ast::{v_compound, v_function, view_opt_redirects, FunctionBody, FunctionDefinition, SourceSpan, Word, CompoundCommand, RedirectList};
use crate::char_parsers::{spaces, spaces_end};
use crate::chars::{name_start, string_from_chars};
use crate::command_parsers::redirect_list;
use crate::compound_parsers::compound_command;
use crate::grammar::{spec_fname, spec_function_body, spec_function_definition, spec_is_valid_fname, ParserOptions};
use crate::line_parsers::linebreak;
use crate::word_parsers::{bare_word, keyword, reserved_word_at};

verus! {

/// Whether `s[a..b]` is a valid function name: not empty, starting with a letter or
/// `_`, not ending with `=`.
pub fn valid_fname_at(s: &[char], a: usize, b: usize) -> (r: bool)
    requires
        a <= b <= s@.len(),
    ensures
        r == spec_is_valid_fname(s@.subrange(a as int, b as int)),
{
    a < b && s[b - 1] != '=' && name_start(s[a])
}

/// Whether `s` is a valid function name: not empty, starting with a letter or `_`,
/// not ending with `=`.
pub fn is_valid_fname(s: &str) -> (r: bool)
    ensures
        r == spec_is_valid_fname(s@),
{
    let cs = crate::chars::chars_of(s);
    proof {
        assert(cs@.subrange(0, cs@.len() as int) =~= s@);
    }
    valid_fname_at(cs.as_slice(), 0, cs.len())
}

/// A function name after optional spaces.
pub fn fname(s: &[char], pos: usize) -> (r: Option<(usize, String)>)
    requires
        pos <= s@.len(),
    ensures
        r matches Some((e, x)) ==> spec_fname(s@, pos as int) == Some((e as int, x@)),
        r is None ==> spec_fname(s@, pos as int) is None,
        r matches Some((e, x)) ==> spaces_end(s@, pos as int) < e <= s@.len() && x@ == s@.subrange(
            spaces_end(s@, pos as int),
            e as int,
        ),
{
    proof {
        reveal(spec_fname);
    }
    let q = spaces(s, pos);
    match bare_word(s, q) {
        Some(e) => if valid_fname_at(s, q, e) {
            Some((e, string_from_chars(s, q, e)))
        } else {
            None
        },
        None => None,
    }
}

/// A function body: a compound command, then optional spaces and redirections.
pub fn function_body(s: &[char], pos: usize, o: ParserOptions) -> (r: Option<(usize, FunctionBody)>)
    requires
        pos <= s@.len(),
    ensures
        r matches Some((e, x)) ==> spec_function_body(s@, pos as int, o) == Some(
            (e as int, (v_compound(x.0), view_opt_redirects(x.1))),
        ),
        r is None ==> spec_function_body(s@, pos as int, o) is None,
        r matches Some((e, _)) ==> pos < e <= s@.len(),
    decreases s@.len() - pos, 17nat,
{
    match compound_command(s, pos, o) {
        Some((e, cc)) => match redirect_list(s, spaces(s, e)) {
            Some((e2, rl)) => Some((e2, FunctionBody(cc, Some(rl)))),
            None => Some((e, FunctionBody(cc, None))),
        },
        None => None,
    }
}

/// A function definition `[function] name [()] body`: without the keyword the
/// parentheses are required and the name may not be a reserved word.
pub fn function_definition(s: &[char], pos: usize, o: ParserOptions) -> (r: Option<(usize, FunctionDefinition)>)
    requires
        pos <= s@.len(),
    ensures
        r matches Some((e, x)) ==> spec_function_definition(s@, pos as int, o) == Some(
            (e as int, v_function(x)),
        ),
        r is None ==> spec_function_definition(s@, pos as int, o) is None,
        r matches Some((e, _)) ==> pos < e <= s@.len(),
    decreases s@.len() - pos, 16nat,
{
    proof {
        reveal_strlit("function");
    }
    let n = s.len();
    let kw = keyword(s, pos, "function");
    let has_kw = kw.is_some();
    let q = match kw {
        Some(e) => e,
        None => pos,
    };
    let qs = spaces(s, q);
    let (e1, name) = match fname(s, q) {
        Some(x) => x,
        None => {
            return None;
        },
    };
    if !has_kw && reserved_word_at(s, qs, e1) {
        return None;
    }
    let e2 = spaces(s, e1);
    let (e3, has_parens) = if e2 < n && s[e2] == '(' {
        let a = spaces(s, e2 + 1);
        if a < n && s[a] == ')' {
            (a + 1, true)
        } else {
            return None;
        }
    } else {
        (e2, false)
    };
    if !has_kw && !has_parens {
        return None;
    }
    match function_body(s, linebreak(s, e3), o) {
        Some((r, body)) => Some((r, FunctionDefinition { fname: Word { value: name, loc: Some(SourceSpan { start: q, end: e1 }) }, body })),
        None => None,
    }
}

} // verus!
