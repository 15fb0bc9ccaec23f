use brush_parser::ast::CompoundCommand;
use brush_parser::char_parsers::{comment, parse_balanced_delimiters, spaces};
use brush_parser::command_parsers::assignment_word;
use brush_parser::compound_parsers::compound_command;
use brush_parser::control_flow_parsers::for_or_arithmetic_for;
use brush_parser::extended_test_parsers::ext_test_word;
use brush_parser::grammar::ParserOptions;
use brush_parser::line_parsers::{linebreak, newline_list};
use brush_parser::arith::normalize_arithmetic_expr;
use brush_parser::program_parsers::{parse_program, program, SourceInfo};
use brush_parser::word_parsers::{bare_word, word_as_ast};

fn cs(s: &str) -> Vec<char> {
    s.chars().collect()
}

fn text(s: &[char], a: usize, b: usize) -> String {
    s[a..b].iter().collect()
}

fn is_op(c: char) -> bool {
    matches!(c, '<' | '>' | '|' | '&' | '(' | ')' | ';')
}

#[test]
fn bare_word_stops_at_first_non_word_char() {
    let s = cs("ab{c}|d");
    let e = bare_word(&s, 0).unwrap();
    assert_eq!(e, 5);
    assert_eq!(s[e], '|');
    let s = cs("word");
    assert_eq!(bare_word(&s, 0), Some(4));
}

#[test]
fn spaces_are_idempotent_and_keep_newlines() {
    let s = cs(" \t# c\\\n x \\\n  y\nz");
    // the comment takes the backslash, so the newline after it stays
    let e = spaces(&s, 0);
    assert_eq!(e, 6);
    assert_eq!(s[e], '\n');
    assert_eq!(spaces(&s, e), e);
    // a backslash-newline continuation is skipped like a blank
    let e = spaces(&s, 9);
    assert_eq!(e, 14);
    assert_eq!(spaces(&s, e), e);
    assert_eq!(spaces(&s, 15), 15);
}

#[test]
fn comment_runs_to_end_of_line() {
    let s = cs("# a ; b\nc");
    assert_eq!(comment(&s, 0), Some(7));
    assert_eq!(s[7], '\n');
    let s = cs("#last");
    assert_eq!(comment(&s, 0), Some(5));
}

#[test]
fn balanced_content_ends_with_its_closer() {
    let s = cs("$(a (b) c)d");
    let e = parse_balanced_delimiters(&s, 0, "$(", Some('('), ')', 1).unwrap();
    assert_eq!(e, 10);
    assert_eq!(s[e - 1], ')');
    let s = cs("{x}{y}");
    let e = parse_balanced_delimiters(&s, 0, "{", Some('{'), '}', 1).unwrap();
    assert_eq!(s[e - 1], '}');
    assert_eq!(e, 3);
}

#[test]
fn normalized_spacing_is_single_and_between_operands() {
    for input in ["  a   b  ", "x\t+\ny", " ( a ) ", "a  <  b ;  c", "\t", "i++  ,  j--"] {
        let r: Vec<char> = normalize_arithmetic_expr(input).chars().collect();
        for k in 0..r.len() {
            if r[k].is_whitespace() {
                assert_eq!(r[k], ' ');
                assert!(k > 0 && k + 1 < r.len());
                assert!(!r[k - 1].is_whitespace() && !is_op(r[k - 1]));
                assert!(!r[k + 1].is_whitespace() && !is_op(r[k + 1]));
            }
        }
    }
    assert_eq!(normalize_arithmetic_expr("  a   b  "), "a b");
    assert_eq!(normalize_arithmetic_expr("a  <  b ;  c"), "a<b;c");
    assert_eq!(normalize_arithmetic_expr("\t"), "");
}

fn options() -> [ParserOptions; 4] {
    [
        ParserOptions { posix_mode: false, sh_mode: false },
        ParserOptions { posix_mode: true, sh_mode: false },
        ParserOptions { posix_mode: false, sh_mode: true },
        ParserOptions { posix_mode: true, sh_mode: true },
    ]
}

#[test]
fn arithmetic_commands_in_every_mode() {
    for o in options() {
        match compound_command(&cs("((x))"), 0, o) {
            Some((5, CompoundCommand::Arithmetic(a))) => assert_eq!(a.expr.value, "x"),
            _ => panic!("expected an arithmetic command"),
        }
        match for_or_arithmetic_for(&cs("for ((;;)) do x; done"), 0, o) {
            Some((_, CompoundCommand::ArithmeticForClause(_))) => {},
            _ => panic!("expected an arithmetic for"),
        }
    }
}

#[test]
fn parse_program_ignores_options() {
    let si = SourceInfo::default();
    for text in ["((x))\nfor ((;;)) do y; done", "a | b && c\n", "echo )"] {
        let base = parse_program(text, &options()[0], &si).map(|p| format!("{:?}", p));
        for o in options() {
            let r = parse_program(text, &o, &si).map(|p| format!("{:?}", p));
            assert_eq!(r, base);
        }
    }
}

#[test]
fn program_consumes_the_whole_text() {
    let o = ParserOptions { posix_mode: false, sh_mode: false };
    let s = cs("a; b\n# tail\n\n");
    let (e, _) = program(&s, 0, o).unwrap();
    assert_eq!(e, s.len());
    assert!(program(&cs("a )"), 0, o).is_none());
}

#[test]
fn word_text_is_its_source() {
    let s = cs("  x\"y z\"$(q)  next");
    let (e, w) = word_as_ast(&s, 2).unwrap();
    assert_eq!(e, 12);
    assert_eq!(w.value, text(&s, 2, e));
    assert_eq!(w.loc.map(|l| (l.start, l.end)), Some((2, e)));
}

#[test]
fn ext_test_word_without_backslash_is_its_source() {
    let s = cs("'a b'\"c\"*$(d) ]]");
    let (e, w) = ext_test_word(&s, 0).unwrap();
    assert_eq!(e, 13);
    assert_eq!(w.value, text(&s, 0, e));
}

#[test]
fn newline_list_is_a_nonempty_linebreak() {
    for input in ["\n\n x", " # c\n\nx", "x", "  ", ""] {
        let s = cs(input);
        let l = linebreak(&s, 0);
        assert_eq!(linebreak(&s, l), l);
        let expected = if l > 0 && s[..l].contains(&'\n') { Some(l) } else { None };
        assert_eq!(newline_list(&s, 0), expected);
    }
}

#[test]
fn scalar_assignment_word_is_its_source() {
    for input in ["v=1 x", "v+=\"a b\";", "a[1]=$(x) y", "e= z"] {
        let s = cs(input);
        let (e, (_, w)) = assignment_word(&s, 0).unwrap();
        assert_eq!(w.value, text(&s, 0, e));
    }
}

#[test]
fn normalizing_twice_is_normalizing_once() {
    for input in ["  a   b  ", "x\t+\ny", " ( a ) ", "a  <  b ;  c", "\t", "i++  ,  j--", "$(( 1 +2 ))"] {
        let once = normalize_arithmetic_expr(input);
        assert_eq!(normalize_arithmetic_expr(&once), once);
    }
}

#[test]
fn spaces_take_the_longest_run_of_blanks_continuations_and_a_comment() {
    let s = cs(" \\\n\t# c \\ d\n x");
    assert_eq!(spaces(&s, 0), 11);
    let s = cs("\\x");
    assert_eq!(spaces(&s, 0), 0);
    let s = cs("  \\\\\n");
    assert_eq!(spaces(&s, 0), 2);
}

#[test]
fn linebreak_takes_the_longest_run_of_whole_lines() {
    let s = cs("  # a\n\n\t\n  x\n");
    assert_eq!(linebreak(&s, 0), 9);
    let s = cs("  # no newline");
    assert_eq!(linebreak(&s, 0), 0);
    let s = cs("\n x # y\n");
    assert_eq!(linebreak(&s, 0), 1);
}

#[test]
fn normalizing_keeps_characters_and_spaces_only_between_operands() {
    let cases = [
        ("a b", "a b"),
        ("a+b", "a+b"),
        ("a  +  b", "a + b"),
        ("a ( b", "a(b"),
        ("x\t;\ty", "x;y"),
        ("  1   2   3  ", "1 2 3"),
    ];
    for (input, expected) in cases {
        let r = normalize_arithmetic_expr(input);
        assert_eq!(r, expected);
        let kept: String = input.chars().filter(|c| !c.is_whitespace()).collect();
        let got: String = r.chars().filter(|c| !c.is_whitespace()).collect();
        assert_eq!(got, kept);
    }
}

/// The first index after `a` where the running depth comes to zero.
fn least_closing(s: &[char], a: usize, open: Option<char>, close: char, depth: i64) -> Option<usize> {
    let mut d = depth;
    let mut q = a;
    loop {
        if d == 0 {
            return Some(q);
        }
        if q >= s.len() {
            return None;
        }
        if Some(s[q]) == open {
            d += 1;
            q += 1;
        } else if s[q] == close {
            d -= 1;
            q += 1;
        } else if s[q] == '\\' && q + 1 < s.len() {
            q += 2;
        } else {
            q += 1;
        }
    }
}

#[test]
fn balanced_content_ends_at_the_least_closing_index() {
    let cases: [(&str, &str, Option<char>, char, usize); 6] = [
        ("$(a (b) c) d)", "$(", Some('('), ')', 1),
        ("$((1+(2))) x)", "$((", Some('('), ')', 2),
        ("${a\\}b}c}", "${", Some('{'), '}', 1),
        ("`a\\`b` c`", "`", None, '`', 1),
        ("$(never closed", "$(", Some('('), ')', 1),
        ("$(x\\", "$(", Some('('), ')', 1),
    ];
    for (text, prefix, open, close, depth) in cases {
        let s = cs(text);
        let expected = least_closing(&s, prefix.chars().count(), open, close, depth as i64);
        assert_eq!(parse_balanced_delimiters(&s, 0, prefix, open, close, depth), expected);
    }
    assert_eq!(parse_balanced_delimiters(&cs("$(a) b)"), 0, "$(", Some('('), ')', 1), Some(4));
}
