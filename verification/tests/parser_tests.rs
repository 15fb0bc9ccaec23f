use brush_parser::and_or_parsers::{and_or, pipeline, simple_command};
use brush_parser::arith::{arithmetic_command, arithmetic_expression, normalize_arithmetic_expr};
use brush_parser::ast::{
    AssignmentName, AssignmentValue, CaseItemPostAction, Command, CommandPrefixOrSuffixItem,
    CompoundCommand, ExtendedTestExpr, IoFileRedirectKind, ProcessSubstitutionKind,
    SeparatorOperator, UnaryPredicate, BinaryPredicate,
};
use brush_parser::char_parsers::{
    array_spaces, comment, extglob_pattern, is_username_char, newline, parse_balanced_delimiters,
    peek_char, peek_op2, peek_op3, spaces, spaces1, tilde_expansion,
};
use brush_parser::chars::chars_of;
use brush_parser::command_parsers::{array_element, array_element_value, assignment_word, cmd_prefix, io_redirect, redirect_list};
use brush_parser::compound_parsers::{brace_group, compound_command, compound_list, do_group, is_valid_name, name, paren_compound, process_substitution, subshell};
use brush_parser::context::{BuiltinExitCode, BuiltinResult, ShellOptions};
use brush_parser::control_flow_parsers::{
    arithmetic_for_clause, case_clause, case_item_terminator, for_clause, for_or_arithmetic_for,
    if_clause, until_clause, while_clause,
};
use brush_parser::extended_test_parsers::{ext_test_spaces, ext_test_word, extended_test_command, parse_binary_operator, parse_unary_operator};
use brush_parser::function_parsers::{fname, function_body, function_definition, is_valid_fname};
use brush_parser::grammar::ParserOptions;
use brush_parser::line_parsers::{linebreak, newline_list, separator, separator_op, sequential_sep};
use brush_parser::program_parsers::{complete_command, complete_commands, parse_program, program, ParseError, SourceInfo};
use brush_parser::users::{get_all_groups, get_all_users, get_effective_gid, get_effective_uid, is_root, Error};
use brush_parser::word_parsers::{
    arithmetic_expansion, backtick_substitution, bare_word, braced_variable, command_substitution,
    double_quoted_string, is_reserved_word, keyword, simple_variable, single_quoted_string,
    special_parameter, word_as_ast,
};

fn cs(s: &str) -> Vec<char> {
    s.chars().collect()
}

fn bash() -> ParserOptions {
    ParserOptions { posix_mode: false, sh_mode: false }
}

fn posix() -> ParserOptions {
    ParserOptions { posix_mode: true, sh_mode: false }
}

fn parse(s: &str) -> Result<brush_parser::ast::Program, ParseError> {
    parse_program(s, &bash(), &SourceInfo::default())
}

#[test]
fn test_submodules_compile() {
    // The parser's basic types are reachable from outside the crate.
    let _: Option<ParseError> = None;
    let _: Option<ParserOptions> = None;
    let _: Option<SourceInfo> = None;
    let _: Option<brush_parser::ast::Program> = None;
}

#[test]
fn peeks_do_not_consume() {
    let s = cs("|| x");
    assert_eq!(peek_op2(&s, 0), Some(2));
    assert_eq!(peek_op2(&cs("<x"), 0), Some(1));
    assert_eq!(peek_op2(&cs("x"), 0), None);
    assert_eq!(peek_op3(&cs(";;&x"), 0), Some(3));
    assert_eq!(peek_op3(&cs(";&x"), 0), Some(2));
    assert_eq!(peek_op3(&cs(";x"), 0), None);
    assert_eq!(peek_char(&cs("ab"), 1), Some('b'));
    assert_eq!(peek_char(&cs("ab"), 2), None);
}

#[test]
fn balanced_delimiters_examples() {
    let s = cs("$(echo (a) b) rest");
    assert_eq!(parse_balanced_delimiters(&s, 0, "$(", Some('('), ')', 1), Some(13));
    let s = cs("$((1 + (2)))x");
    assert_eq!(parse_balanced_delimiters(&s, 0, "$((", Some('('), ')', 2), Some(12));
    let s = cs("${a:-{b}}c");
    assert_eq!(parse_balanced_delimiters(&s, 0, "${", Some('{'), '}', 1), Some(9));
    let s = cs("`echo \\` x` y");
    assert_eq!(parse_balanced_delimiters(&s, 0, "`", None, '`', 1), Some(11));
    // unclosed
    assert_eq!(parse_balanced_delimiters(&cs("$(echo"), 0, "$(", Some('('), ')', 1), None);
    // wrong prefix
    assert_eq!(parse_balanced_delimiters(&cs("(x)"), 0, "$(", Some('('), ')', 1), None);
    // an escaped closer does not close
    assert_eq!(parse_balanced_delimiters(&cs("$(a\\)b)"), 0, "$(", Some('('), ')', 1), Some(7));
}

#[test]
fn extglob_and_tilde() {
    assert_eq!(extglob_pattern(&cs("@(a|b)c"), 0), Some(6));
    assert_eq!(extglob_pattern(&cs("!(x)"), 0), Some(4));
    assert_eq!(extglob_pattern(&cs("#(x)"), 0), None);
    assert_eq!(tilde_expansion(&cs("~/dir"), 0), Some(1));
    assert_eq!(tilde_expansion(&cs("~user/x"), 0), Some(5));
    assert_eq!(tilde_expansion(&cs("~+"), 0), Some(2));
    assert_eq!(tilde_expansion(&cs("~user$"), 0), None);
    assert_eq!(tilde_expansion(&cs("x"), 0), None);
    assert!(is_username_char('a'));
    assert!(is_username_char('-'));
    assert!(!is_username_char('/'));
}

#[test]
fn blanks_and_comments() {
    let s = cs("  # note\nx");
    assert_eq!(spaces(&s, 0), 8);
    assert_eq!(comment(&s, 2), Some(8));
    assert_eq!(newline(&s, 8), Some(9));
    assert_eq!(newline(&s, 0), None);
    assert_eq!(spaces(&cs("a \\\n b"), 1), 5);
    assert_eq!(spaces1(&cs("x"), 0), None);
    assert_eq!(spaces1(&cs(" \t#c\n"), 0), Some(4));
    assert_eq!(array_spaces(&cs(" \n #c\n x"), 0), 7);
}

#[test]
fn separators() {
    assert_eq!(linebreak(&cs(" # c\n\n  x"), 0), 6);
    assert_eq!(newline_list(&cs("x"), 0), None);
    assert_eq!(newline_list(&cs("\n\nx"), 0), Some(2));
    assert_eq!(separator_op(&cs(";x"), 0), Some((1, SeparatorOperator::Sequence)));
    assert_eq!(separator_op(&cs(";;"), 0), None);
    assert_eq!(separator_op(&cs(";&"), 0), None);
    assert_eq!(separator_op(&cs("&x"), 0), Some((1, SeparatorOperator::Async)));
    assert_eq!(separator_op(&cs("&&"), 0), None);
    assert_eq!(separator(&cs("\n\nx"), 0), Some((2, None)));
    assert_eq!(separator(&cs(";\nx"), 0), Some((2, Some(SeparatorOperator::Sequence))));
    assert_eq!(sequential_sep(&cs(";;"), 0), Some(1));
    assert_eq!(sequential_sep(&cs("x"), 0), None);
}

#[test]
fn words_and_expansions() {
    let s = cs("abc{1..2}|x");
    assert_eq!(bare_word(&s, 0), Some(9));
    assert_eq!(bare_word(&cs("|"), 0), None);
    assert_eq!(simple_variable(&cs("$HOME/x"), 0), Some(5));
    assert_eq!(simple_variable(&cs("$/"), 0), None);
    assert_eq!(braced_variable(&cs("${x}y"), 0), Some(4));
    assert_eq!(arithmetic_expansion(&cs("$((1+2))"), 0), Some(8));
    assert_eq!(command_substitution(&cs("$((1+2))"), 0), None);
    assert_eq!(command_substitution(&cs("$(ls)"), 0), Some(5));
    assert_eq!(backtick_substitution(&cs("`ls`"), 0), Some(4));
    assert_eq!(special_parameter(&cs("$?"), 0), Some(2));
    assert_eq!(special_parameter(&cs("$1x"), 0), Some(2));
    assert_eq!(special_parameter(&cs("$a"), 0), None);
    assert_eq!(single_quoted_string(&cs("'a b'c"), 0), Some(5));
    assert_eq!(single_quoted_string(&cs("'a b"), 0), None);
    assert_eq!(double_quoted_string(&cs("\"a\\\"b\" x"), 0), Some(6));
    let (e, w) = word_as_ast(&cs("pre\"$x y\"'z'$(a b) next"), 0).unwrap();
    assert_eq!(e, 18);
    assert_eq!(w.value, "pre\"$x y\"'z'$(a b)");
    assert_eq!(w.loc.map(|l| (l.start, l.end)), Some((0, 18)));
    assert!(is_reserved_word("done"));
    assert!(is_reserved_word("[["));
    assert!(!is_reserved_word("echo"));
    assert_eq!(keyword(&cs("  then x"), 0, "then"), Some(6));
    assert_eq!(keyword(&cs("thenx"), 0, "then"), None);
    assert_eq!(keyword(&cs("do;"), 0, "do"), Some(2));
}

#[test]
fn names() {
    assert!(is_valid_name("_a1"));
    assert!(!is_valid_name("1a"));
    assert!(!is_valid_name(""));
    assert!(!is_valid_name("a-b"));
    assert!(is_valid_fname("my-func.x"));
    assert!(!is_valid_fname("f="));
    assert!(!is_valid_fname("-f"));
    assert_eq!(name(&cs(" var in"), 0), Some((4, "var".to_string())));
    assert_eq!(name(&cs(" 9var"), 0), None);
    assert_eq!(fname(&cs(" my-fn()"), 0), Some((6, "my-fn".to_string())));
}

#[test]
fn redirections() {
    let (e, r) = io_redirect(&cs("2>>log x"), 0).unwrap();
    assert_eq!(e, 6);
    assert_eq!(r.fd, Some(2));
    assert_eq!(r.kind, IoFileRedirectKind::Append);
    assert_eq!(r.target.value, "log");
    let (_, r) = io_redirect(&cs("> out"), 0).unwrap();
    assert_eq!(r.kind, IoFileRedirectKind::Write);
    assert_eq!(r.fd, None);
    assert_eq!(io_redirect(&cs("<(ls)"), 0).map(|x| x.0), None);
    assert_eq!(io_redirect(&cs("<<EOF"), 0).map(|x| x.0), None);
    let (_, r) = io_redirect(&cs(">&2"), 0).unwrap();
    assert_eq!(r.kind, IoFileRedirectKind::DuplicateOutput);
    let (e, l) = redirect_list(&cs(">a 2>b x"), 0).unwrap();
    assert_eq!(e, 6);
    assert_eq!(l.0.len(), 2);
}

#[test]
fn assignments() {
    let (e, (a, w)) = assignment_word(&cs("x=1 y"), 0).unwrap();
    assert_eq!(e, 3);
    assert_eq!(w.value, "x=1");
    assert!(!a.append);
    assert!(matches!(a.name, AssignmentName::VariableName(ref n) if n == "x"));
    assert!(matches!(a.value, AssignmentValue::Scalar(ref v) if v.value == "1"));
    let (_, (a, w)) = assignment_word(&cs("arr[3]+=\"v w\""), 0).unwrap();
    assert_eq!(w.value, "arr[3]+=\"v w\"");
    assert!(a.append);
    assert!(matches!(a.name, AssignmentName::ArrayElementName(ref n, ref i) if n == "arr" && i == "3"));
    let (e, (a, w)) = assignment_word(&cs("x=( a [2]=b\n 'c d' )z"), 0).unwrap();
    assert_eq!(e, 20);
    assert_eq!(w.value, "x=(a [2]=b 'c d')");
    match a.value {
        AssignmentValue::Array(els) => {
            assert_eq!(els.len(), 3);
            assert_eq!(els[1].0.as_ref().map(|w| w.value.clone()), Some("2".to_string()));
            assert_eq!(els[1].1.value, "b");
            assert_eq!(els[2].1.value, "'c d'");
        },
        _ => panic!("expected an array"),
    }
    let (e, (_, w)) = assignment_word(&cs("empty= next"), 0).unwrap();
    assert_eq!(e, 6);
    assert_eq!(w.value, "empty=");
    assert!(assignment_word(&cs("1x=2"), 0).is_none());
    assert!(assignment_word(&cs("x+1"), 0).is_none());
    assert!(assignment_word(&cs("x[]=1"), 0).is_none());
    assert_eq!(array_element_value(&cs("ab)"), 0), Some(2));
    assert_eq!(array_element_value(&cs(")"), 0), None);
    let (e, el) = array_element(&cs("  [k]=)"), 0).unwrap();
    assert_eq!(e, 6);
    assert_eq!(el.1.value, "");
    let (e, p) = cmd_prefix(&cs("a=1 >f b=2 cmd"), 0).unwrap();
    assert_eq!(e, 11);
    assert_eq!(p.0.len(), 3);
}

#[test]
fn simple_commands_and_pipelines() {
    let s = cs("x=1 echo hi >out <(ls) | wc -l && true || false");
    let (e, c) = simple_command(&s, 0, bash()).unwrap();
    assert_eq!(e, 22);
    assert_eq!(c.word_or_name.as_ref().unwrap().value, "echo");
    assert_eq!(c.prefix.as_ref().unwrap().0.len(), 1);
    let suffix = c.suffix.as_ref().unwrap();
    assert_eq!(suffix.0.len(), 3);
    assert!(matches!(suffix.0[2], CommandPrefixOrSuffixItem::ProcessSubstitution(ProcessSubstitutionKind::Read, _)));
    let (e, p) = pipeline(&s, 0, bash()).unwrap();
    assert_eq!(e, 30);
    assert_eq!(p.seq.len(), 2);
    assert!(!p.bang);
    let (e, ao) = and_or(&s, 0, bash()).unwrap();
    assert_eq!(e, s.len());
    assert_eq!(ao.additional.len(), 2);
    let (_, p) = pipeline(&cs("! false"), 0, bash()).unwrap();
    assert!(p.bang);
    assert!(simple_command(&cs("done"), 0, bash()).is_none());
    let (_, c) = simple_command(&cs("echo done"), 0, bash()).unwrap();
    assert_eq!(c.suffix.unwrap().0.len(), 1);
}

#[test]
fn compound_lists_and_groups() {
    let s = cs("\n a; b & c\n d");
    let (e, l) = compound_list(&s, 0, bash()).unwrap();
    assert_eq!(e, s.len());
    assert_eq!(l.0.len(), 4);
    assert_eq!(l.0[1].1, SeparatorOperator::Async);
    let (e, b) = brace_group(&cs("{ a; b; } x"), 0, bash()).unwrap();
    assert_eq!(e, 9);
    assert_eq!(b.list.0.len(), 2);
    assert_eq!((b.loc.start, b.loc.end), (0, 9));
    assert!(brace_group(&cs("{a; }"), 0, bash()).is_none());
    let (e, sub) = subshell(&cs("( a | b )"), 0, bash()).unwrap();
    assert_eq!(e, 9);
    assert_eq!(sub.list.0.len(), 1);
    let (_, (k, _)) = process_substitution(&cs(">(tee x)"), 0, bash()).unwrap();
    assert_eq!(k, ProcessSubstitutionKind::Write);
    let (e, d) = do_group(&cs(" do a; done;"), 0, bash()).unwrap();
    assert_eq!(e, 11);
    assert_eq!(d.list.0.len(), 1);
}

#[test]
fn arithmetic() {
    assert_eq!(normalize_arithmetic_expr("  a  +  b "), "a + b");
    assert_eq!(normalize_arithmetic_expr("a < b"), "a<b");
    assert_eq!(normalize_arithmetic_expr("( x * 2 )"), "(x * 2)");
    assert_eq!(normalize_arithmetic_expr(""), "");
    let (e, x) = arithmetic_expression(&cs("i = 0; i < 3"), 0);
    assert_eq!(e, 5);
    assert_eq!(x.value, "i = 0");
    let (e, x) = arithmetic_expression(&cs("(a) ) )"), 0);
    assert_eq!(e, 3);
    assert_eq!(x.value, "(a)");
    let (e, c) = arithmetic_command(&cs("(( x += 1 ))y"), 0).unwrap();
    assert_eq!(e, 12);
    assert_eq!(c.expr.value, "x += 1");
    let (_, c) = paren_compound(&cs("((1))"), 0, bash()).unwrap();
    assert!(matches!(c, CompoundCommand::Arithmetic(_)));
    // the options make no difference
    let (_, c) = paren_compound(&cs("((1))"), 0, posix()).unwrap();
    assert!(matches!(c, CompoundCommand::Arithmetic(_)));
    let (_, c) = paren_compound(&cs("(a)"), 0, bash()).unwrap();
    assert!(matches!(c, CompoundCommand::Subshell(_)));
}

#[test]
fn control_flow() {
    let (e, c) = if_clause(&cs("if a; then b; elif c; then d; else e; fi x"), 0, bash()).unwrap();
    assert_eq!(e, 40);
    assert_eq!(c.elses.as_ref().unwrap().len(), 2);
    assert!(c.elses.as_ref().unwrap()[1].condition.is_none());
    let (_, c) = if_clause(&cs("if a\nthen b\nfi"), 0, bash()).unwrap();
    assert!(c.elses.is_none());
    let (_, w) = while_clause(&cs("while true; do x; done"), 0, bash()).unwrap();
    assert_eq!(w.0 .0.len(), 1);
    assert!(until_clause(&cs("until a; do b; done"), 0, bash()).is_some());
    assert!(while_clause(&cs("until a; do b; done"), 0, bash()).is_none());
    let (_, f) = for_clause(&cs("for i in 1 2 3; do echo $i; done"), 0, bash()).unwrap();
    assert_eq!(f.variable_name, "i");
    assert_eq!(f.values.as_ref().unwrap().len(), 3);
    let (_, f) = for_clause(&cs("for i; do x; done"), 0, bash()).unwrap();
    assert!(f.values.is_none());
    let (_, f) = arithmetic_for_clause(&cs("for ((i=0; i<3; i++)); do x; done"), 0, bash()).unwrap();
    assert_eq!(f.initializer.as_ref().unwrap().value, "i=0");
    assert_eq!(f.condition.as_ref().unwrap().value, "i<3");
    assert_eq!(f.updater.as_ref().unwrap().value, "i++");
    // the brace group must follow the closing parentheses directly
    assert!(arithmetic_for_clause(&cs("for ((;;)) { x; }"), 0, bash()).is_none());
    let (_, f) = arithmetic_for_clause(&cs("for ((;;)){ x; }"), 0, bash()).unwrap();
    assert_eq!(f.initializer.as_ref().unwrap().value, "");
    let (_, c) = for_or_arithmetic_for(&cs("for ((;;)) do x; done"), 0, bash()).unwrap();
    assert!(matches!(c, CompoundCommand::ArithmeticForClause(_)));
    let (_, c) = for_or_arithmetic_for(&cs("for ((;;)) do x; done"), 0, posix()).unwrap();
    assert!(matches!(c, CompoundCommand::ArithmeticForClause(_)));
    assert_eq!(case_item_terminator(&cs(" ;;&"), 0), Some((4, CaseItemPostAction::ContinueEvaluatingCases)));
    assert_eq!(case_item_terminator(&cs(";&"), 0), Some((2, CaseItemPostAction::UnconditionallyExecuteNextCaseItem)));
    assert_eq!(case_item_terminator(&cs(";;"), 0), Some((2, CaseItemPostAction::ExitCase)));
    assert_eq!(case_item_terminator(&cs(";&;"), 0), None);
    let s = cs("case $x in\n a|b) echo 1;;\n (c) echo 2 ;&\n *) ;;\nesac");
    let (e, c) = case_clause(&s, 0, bash()).unwrap();
    assert_eq!(e, s.len());
    assert_eq!(c.cases.len(), 3);
    assert_eq!(c.cases[0].patterns.len(), 2);
    assert_eq!(c.cases[1].post_action, CaseItemPostAction::UnconditionallyExecuteNextCaseItem);
    assert!(c.cases[2].cmd.is_none());
    let (_, c) = case_clause(&cs("case x in esac"), 0, bash()).unwrap();
    assert_eq!(c.cases.len(), 0);
    let (_, c) = compound_command(&cs("  { a; }"), 0, bash()).unwrap();
    assert!(matches!(c, CompoundCommand::BraceGroup(_)));
}

#[test]
fn functions() {
    let (e, f) = function_definition(&cs("foo() { echo; } >log"), 0, bash()).unwrap();
    assert_eq!(e, 20);
    assert_eq!(f.fname.value, "foo");
    assert!(f.body.1.is_some());
    let (_, f) = function_definition(&cs("function bar { x; }"), 0, bash()).unwrap();
    assert_eq!(f.fname.value, "bar");
    assert_eq!(f.fname.loc.map(|l| (l.start, l.end)), Some((8, 12)));
    assert!(function_definition(&cs("bar { x; }"), 0, bash()).is_none());
    assert!(function_definition(&cs("if() { x; }"), 0, bash()).is_none());
    assert!(function_definition(&cs("function if { x; }"), 0, bash()).is_some());
    let (_, b) = function_body(&cs("( x )"), 0, bash()).unwrap();
    assert!(matches!(b.0, CompoundCommand::Subshell(_)));
}

#[test]
fn extended_tests() {
    assert_eq!(parse_unary_operator("-f"), Some(UnaryPredicate::FileExistsAndIsRegularFile));
    assert_eq!(parse_unary_operator("-L"), Some(UnaryPredicate::FileExistsAndIsSymlink));
    assert_eq!(parse_unary_operator("-q"), None);
    assert_eq!(parse_binary_operator("=="), Some(BinaryPredicate::StringExactlyMatchesPattern));
    assert_eq!(parse_binary_operator("-nt"), Some(BinaryPredicate::LeftFileIsNewerOrExistsWhenRightDoesNot));
    assert_eq!(parse_binary_operator("=>"), None);
    assert_eq!(ext_test_spaces(&cs(" \n \\\n x"), 0), 6);
    let (e, w) = ext_test_word(&cs("\"declare -a\"* rest"), 0).unwrap();
    assert_eq!(e, 13);
    assert_eq!(w.value, "\"declare -a\"*");
    let (_, w) = ext_test_word(&cs("a\\\nb"), 0).unwrap();
    assert_eq!(w.value, "ab");
    let (_, w) = ext_test_word(&cs("$(echo \"(\")x"), 0).unwrap();
    assert_eq!(w.value, "$(echo \"(\")x");
    let (e, _) = ext_test_word(&cs("a&&b"), 0).unwrap();
    assert_eq!(e, 1);
    assert!(ext_test_word(&cs("(x"), 0).is_none());
    let (e, c) = extended_test_command(&cs("[[ $x ]] y"), 0).unwrap();
    assert_eq!(e, 8);
    match c.expr {
        ExtendedTestExpr::UnaryTest(p, w) => {
            assert_eq!(p, UnaryPredicate::StringHasNonZeroLength);
            assert_eq!(w.value, "$x");
        },
        _ => panic!("expected a unary test"),
    }
}

#[test]
fn programs() {
    let p = parse("# header\necho a; echo b\n\nif x; then y; fi\n# trailing").unwrap();
    assert_eq!(p.complete_commands.len(), 2);
    assert_eq!(p.complete_commands[0].0.len(), 2);
    let p = parse("").unwrap();
    assert_eq!(p.complete_commands.len(), 0);
    assert_eq!(parse("echo )").unwrap_err(), ParseError);
    assert!(parse("if x; then y").is_err());
    let p = parse("f() { for i in a b; do [[ $i ]] && echo \"$i\"; done; }\nf | cat").unwrap();
    assert_eq!(p.complete_commands.len(), 2);
    match &p.complete_commands[0].0[0].0.first.seq[0] {
        Command::Function(f) => assert_eq!(f.fname.value, "f"),
        _ => panic!("expected a function"),
    }
    let p = parse_program("((x)) ", &posix(), &SourceInfo::default()).unwrap();
    match &p.complete_commands[0].0[0].0.first.seq[0] {
        Command::Compound(CompoundCommand::Arithmetic(_), None) => {},
        _ => panic!("expected an arithmetic command"),
    }
    let s = cs("a\nb");
    let (e, c) = complete_command(&s, 0, bash()).unwrap();
    assert_eq!((e, c.0.len()), (1, 1));
    let (e, cs2) = complete_commands(&s, 0, bash()).unwrap();
    assert_eq!((e, cs2.len()), (3, 2));
    assert!(program(&cs("a b\n"), 0, bash()).is_some());
    assert_eq!(chars_of("héllo").len(), 5);
}

#[test]
fn users_and_context() {
    assert!(!is_root());
    assert!(matches!(get_effective_uid(), Err(Error::Unimplemented("get effective uid"))));
    assert!(matches!(get_effective_gid(), Err(Error::Unimplemented("get effective gid"))));
    assert_eq!(get_all_users().unwrap().len(), 0);
    assert_eq!(get_all_groups().unwrap().len(), 0);
    let r = BuiltinResult { exit_code: BuiltinExitCode::Custom(3) };
    assert_eq!(r.exit_code, BuiltinExitCode::Custom(3));
    assert_eq!(ShellOptions::default(), ShellOptions {});
}

#[test]
fn single_quoted_declare_argument_is_one_word() {
    let s = cs("X=\"a b\"; IFS=, declare -a 'arr=(${X})'; echo \"${arr[@]}\"");
    let (_, c) = simple_command(&s, 9, bash()).unwrap();
    assert_eq!(c.word_or_name.as_ref().unwrap().value, "declare");
    let prefix = c.prefix.as_ref().unwrap();
    assert!(matches!(&prefix.0[0], CommandPrefixOrSuffixItem::AssignmentWord(_, w) if w.value == "IFS=,"));
    let suffix = c.suffix.as_ref().unwrap();
    assert_eq!(suffix.0.len(), 2);
    assert!(matches!(&suffix.0[1], CommandPrefixOrSuffixItem::Word(w) if w.value == "'arr=(${X})'"));
    let p = parse("X=\"a b\"; IFS=, declare -a 'arr=(${X})'; echo \"${arr[@]}\"").unwrap();
    assert_eq!(p.complete_commands.len(), 1);
    assert_eq!(p.complete_commands[0].0.len(), 3);
}

#[test]
fn simple_variable_names_take_unicode_letters_and_digits() {
    assert_eq!(simple_variable(&cs("$héllo2-x"), 0), Some(7));
    assert_eq!(simple_variable(&cs("$_٣x y"), 0), Some(4));
    assert_eq!(simple_variable(&cs("$-"), 0), None);
}

#[test]
fn a_failed_case_item_ends_the_list_where_it_stopped() {
    let s = cs("case x in a) y;; b esac");
    let (e, c) = case_clause(&s, 0, bash()).unwrap();
    assert_eq!(e, s.len());
    assert_eq!(c.cases.len(), 1);
    assert_eq!(c.cases[0].patterns[0].value, "a");
    assert!(case_clause(&cs("case x in b esac"), 0, bash()).is_none());
    assert!(case_clause(&cs("case x in a) y;; b c esac"), 0, bash()).is_none());
}
