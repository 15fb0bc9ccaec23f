//! The syntax tree the parsers build, and its mathematical model: each type that
//! holds a `String` or a `Vec` has a model type (`S...`) over `Seq`, and a `view_*`
//! function from the first to the second. Types of plain values are their own model.

use vstd::prelude::*;

verus! {

/// How an item of a command list is terminated.
#[derive(Clone, Copy, Debug, PartialEq, Eq, Structural)]
pub enum SeparatorOperator {
    /// `&`: run asynchronously.
    Async,
    /// `;` or a newline: run in sequence.
    Sequence,
}

/// A range of character offsets into the parsed text: `start..end`.
#[derive(Clone, Copy, Debug, PartialEq, Eq, Structural)]
pub struct SourceSpan {
    pub start: usize,
    pub end: usize,
}

pub open spec fn span(start: int, end: int) -> SourceSpan {
    SourceSpan { start: start as usize, end: end as usize }
}

/// A word of the shell text, kept as written (quotes and expansions included).
#[derive(Clone, Debug)]
pub struct Word {
    pub value: String,
    pub loc: Option<SourceSpan>,
}

pub struct SWord {
    pub value: Seq<char>,
    pub loc: Option<SourceSpan>,
}

impl View for Word {
    type V = SWord;

    open spec fn view(&self) -> SWord {
        SWord { value: self.value@, loc: self.loc }
    }
}

impl Word {
    /// A word with the given text and no location.
    pub fn new(value: String) -> (w: Word)
        ensures
            w@ == (SWord { value: value@, loc: None }),
    {
        Word { value, loc: None }
    }
}

/// The name an assignment assigns to: a variable, or one element of an array.
#[derive(Clone, Debug)]
pub enum AssignmentName {
    VariableName(String),
    ArrayElementName(String, String),
}

pub enum SAssignmentName {
    VariableName(Seq<char>),
    ArrayElementName(Seq<char>, Seq<char>),
}

impl View for AssignmentName {
    type V = SAssignmentName;

    open spec fn view(&self) -> SAssignmentName {
        match self {
            AssignmentName::VariableName(n) => SAssignmentName::VariableName(n@),
            AssignmentName::ArrayElementName(n, i) => SAssignmentName::ArrayElementName(n@, i@),
        }
    }
}

pub open spec fn view_opt_word(w: Option<Word>) -> Option<SWord> {
    match w {
        Some(w) => Some(w@),
        None => None,
    }
}

pub open spec fn view_elements(v: Seq<(Option<Word>, Word)>) -> Seq<(Option<SWord>, SWord)> {
    v.map_values(|e: (Option<Word>, Word)| (view_opt_word(e.0), e.1@))
}

/// The value an assignment assigns: one word, or the elements of an array literal,
/// each with its optional `[index]`.
#[derive(Clone, Debug)]
pub enum AssignmentValue {
    Scalar(Word),
    Array(Vec<(Option<Word>, Word)>),
}

pub enum SAssignmentValue {
    Scalar(SWord),
    Array(Seq<(Option<SWord>, SWord)>),
}

impl View for AssignmentValue {
    type V = SAssignmentValue;

    open spec fn view(&self) -> SAssignmentValue {
        match self {
            AssignmentValue::Scalar(w) => SAssignmentValue::Scalar(w@),
            AssignmentValue::Array(v) => SAssignmentValue::Array(view_elements(v@)),
        }
    }
}

/// An assignment `name=value`, `name+=value`, `name[i]=value` or `name=(...)`.
#[derive(Clone, Debug)]
pub struct Assignment {
    pub name: AssignmentName,
    pub value: AssignmentValue,
    pub append: bool,
    pub loc: SourceSpan,
}

pub struct SAssignment {
    pub name: SAssignmentName,
    pub value: SAssignmentValue,
    pub append: bool,
    pub loc: SourceSpan,
}

impl View for Assignment {
    type V = SAssignment;

    open spec fn view(&self) -> SAssignment {
        SAssignment { name: self.name@, value: self.value@, append: self.append, loc: self.loc }
    }
}

/// The operator of a file redirection.
#[derive(Clone, Copy, Debug, PartialEq, Eq, Structural)]
pub enum IoFileRedirectKind {
    /// `<`
    Read,
    /// `>`
    Write,
    /// `>>`
    Append,
    /// `<>`
    ReadAndWrite,
    /// `>|`
    Clobber,
    /// `<&`
    DuplicateInput,
    /// `>&`
    DuplicateOutput,
}

/// A redirection: an optional single-digit file descriptor, an operator and a target.
#[derive(Clone, Debug)]
pub struct IoRedirect {
    pub fd: Option<u32>,
    pub kind: IoFileRedirectKind,
    pub target: Word,
}

pub struct SIoRedirect {
    pub fd: Option<u32>,
    pub kind: IoFileRedirectKind,
    pub target: SWord,
}

impl View for IoRedirect {
    type V = SIoRedirect;

    open spec fn view(&self) -> SIoRedirect {
        SIoRedirect { fd: self.fd, kind: self.kind, target: self.target@ }
    }
}

#[derive(Clone, Debug)]
pub struct RedirectList(pub Vec<IoRedirect>);

pub open spec fn view_redirects(v: Seq<IoRedirect>) -> Seq<SIoRedirect> {
    v.map_values(|r: IoRedirect| r@)
}

pub open spec fn view_opt_redirects(r: Option<RedirectList>) -> Option<Seq<SIoRedirect>> {
    match r {
        Some(l) => Some(view_redirects(l.0@)),
        None => None,
    }
}

/// Whether a process substitution is read from (`<(...)`) or written to (`>(...)`).
#[derive(Clone, Copy, Debug, PartialEq, Eq, Structural)]
pub enum ProcessSubstitutionKind {
    Read,
    Write,
}

/// What a `case` item does after its commands ran.
#[derive(Clone, Copy, Debug, PartialEq, Eq, Structural)]
pub enum CaseItemPostAction {
    /// `;;`
    ExitCase,
    /// `;&`
    UnconditionallyExecuteNextCaseItem,
    /// `;;&`
    ContinueEvaluatingCases,
}

/// An arithmetic expression as written (normalised), not yet expanded.
#[derive(Clone, Debug)]
pub struct UnexpandedArithmeticExpr {
    pub value: String,
}

pub open spec fn view_opt_arith(e: Option<UnexpandedArithmeticExpr>) -> Option<Seq<char>> {
    match e {
        Some(e) => Some(e.value@),
        None => None,
    }
}

/// The unary predicates of extended tests (`-f file`, `-z string`, ...).
#[derive(Clone, Copy, Debug, PartialEq, Eq, Structural)]
pub enum UnaryPredicate {
    FileExists,
    FileExistsAndIsBlockSpecialFile,
    FileExistsAndIsCharSpecialFile,
    FileExistsAndIsDir,
    FileExistsAndIsRegularFile,
    FileExistsAndIsSetgid,
    FileExistsAndIsSymlink,
    FileExistsAndHasStickyBit,
    FileExistsAndIsFifo,
    FileExistsAndIsReadable,
    FileExistsAndIsNotZeroLength,
    FdIsOpenTerminal,
    FileExistsAndIsSetuid,
    FileExistsAndIsWritable,
    FileExistsAndIsExecutable,
    FileExistsAndOwnedByEffectiveGroupId,
    FileExistsAndModifiedSinceLastRead,
    FileExistsAndOwnedByEffectiveUserId,
    FileExistsAndIsSocket,
    ShellOptionEnabled,
    ShellVariableIsSetAndAssigned,
    ShellVariableIsSetAndNameRef,
    StringHasZeroLength,
    StringHasNonZeroLength,
}

/// The binary predicates of extended tests (`=`, `-eq`, `-nt`, `=~`, ...).
#[derive(Clone, Copy, Debug, PartialEq, Eq, Structural)]
pub enum BinaryPredicate {
    StringExactlyMatchesPattern,
    StringDoesNotExactlyMatchPattern,
    LeftSortsBeforeRight,
    LeftSortsAfterRight,
    ArithmeticEqualTo,
    ArithmeticNotEqualTo,
    ArithmeticLessThan,
    ArithmeticLessThanOrEqualTo,
    ArithmeticGreaterThan,
    ArithmeticGreaterThanOrEqualTo,
    LeftFileIsNewerOrExistsWhenRightDoesNot,
    LeftFileIsOlderOrDoesNotExistWhenRightDoes,
    FilesReferToSameDeviceAndInodeNumbers,
    StringMatchesRegex,
}

/// An extended test expression.
#[derive(Clone, Debug)]
pub enum ExtendedTestExpr {
    UnaryTest(UnaryPredicate, Word),
    BinaryTest(BinaryPredicate, Word, Word),
}

pub enum SExtendedTestExpr {
    UnaryTest(UnaryPredicate, SWord),
    BinaryTest(BinaryPredicate, SWord, SWord),
}

impl View for ExtendedTestExpr {
    type V = SExtendedTestExpr;

    open spec fn view(&self) -> SExtendedTestExpr {
        match self {
            ExtendedTestExpr::UnaryTest(p, w) => SExtendedTestExpr::UnaryTest(*p, w@),
            ExtendedTestExpr::BinaryTest(p, l, r) => SExtendedTestExpr::BinaryTest(*p, l@, r@),
        }
    }
}

/// An extended test command `[[ ... ]]`.
#[derive(Clone, Debug)]
pub struct ExtendedTestExprCommand {
    pub expr: ExtendedTestExpr,
    pub loc: SourceSpan,
}

pub struct SExtendedTestExprCommand {
    pub expr: SExtendedTestExpr,
    pub loc: SourceSpan,
}

impl View for ExtendedTestExprCommand {
    type V = SExtendedTestExprCommand;

    open spec fn view(&self) -> SExtendedTestExprCommand {
        SExtendedTestExprCommand { expr: self.expr@, loc: self.loc }
    }
}

/// An arithmetic command `(( expr ))`.
#[derive(Clone, Debug)]
pub struct ArithmeticCommand {
    pub expr: UnexpandedArithmeticExpr,
    pub loc: SourceSpan,
}

pub struct SArithmeticCommand {
    pub expr: Seq<char>,
    pub loc: SourceSpan,
}

impl View for ArithmeticCommand {
    type V = SArithmeticCommand;

    open spec fn view(&self) -> SArithmeticCommand {
        SArithmeticCommand { expr: self.expr.value@, loc: self.loc }
    }
}

// ---------------------------------------------------------------- the command tree

/// An item before or after a command name: a redirection, a word, an assignment
/// (with the word as written) or a process substitution.
#[derive(Debug)]
pub enum CommandPrefixOrSuffixItem {
    IoRedirect(IoRedirect),
    Word(Word),
    AssignmentWord(Assignment, Word),
    ProcessSubstitution(ProcessSubstitutionKind, SubshellCommand),
}

/// Assignments and redirections before a command name.
#[derive(Debug)]
pub struct CommandPrefix(pub Vec<CommandPrefixOrSuffixItem>);

/// Words, redirections and process substitutions after a command name.
#[derive(Debug)]
pub struct CommandSuffix(pub Vec<CommandPrefixOrSuffixItem>);

/// A simple command: optional prefix, optional name, optional suffix.
#[derive(Debug)]
pub struct SimpleCommand {
    pub prefix: Option<CommandPrefix>,
    pub word_or_name: Option<Word>,
    pub suffix: Option<CommandSuffix>,
}

/// A command of a pipeline.
#[derive(Debug)]
pub enum Command {
    Simple(SimpleCommand),
    Compound(CompoundCommand, Option<RedirectList>),
    Function(FunctionDefinition),
    ExtendedTest(ExtendedTestExprCommand),
}

/// Commands joined by `|`, optionally negated by a leading `!`.
#[derive(Debug)]
pub struct Pipeline {
    pub bang: bool,
    pub seq: Vec<Command>,
}

/// A pipeline after `&&` or `||`.
#[derive(Debug)]
pub enum AndOr {
    And(Pipeline),
    Or(Pipeline),
}

/// Pipelines joined by `&&` and `||`.
#[derive(Debug)]
pub struct AndOrList {
    pub first: Pipeline,
    pub additional: Vec<AndOr>,
}

/// An and-or list with the separator that ends it.
#[derive(Debug)]
pub struct CompoundListItem(pub AndOrList, pub SeparatorOperator);

/// A list of and-or lists, each with its separator.
#[derive(Debug)]
pub struct CompoundList(pub Vec<CompoundListItem>);

/// A complete command: a list of and-or lists on one logical line.
pub type CompleteCommand = CompoundList;

/// A whole program: its complete commands.
#[derive(Debug)]
pub struct Program {
    pub complete_commands: Vec<CompleteCommand>,
}

/// `( list )`
#[derive(Debug)]
pub struct SubshellCommand {
    pub list: CompoundList,
    pub loc: SourceSpan,
}

/// `{ list; }`
#[derive(Debug)]
pub struct BraceGroupCommand {
    pub list: CompoundList,
    pub loc: SourceSpan,
}

/// `do list done`
#[derive(Debug)]
pub struct DoGroupCommand {
    pub list: CompoundList,
    pub loc: SourceSpan,
}

/// An `elif` (with a condition) or the final `else` (without).
#[derive(Debug)]
pub struct ElseClause {
    pub condition: Option<CompoundList>,
    pub body: CompoundList,
}

/// `if ... then ... [elif ... then ...]* [else ...] fi`
#[derive(Debug)]
pub struct IfClauseCommand {
    pub condition: CompoundList,
    pub then_body: CompoundList,
    pub elses: Option<Vec<ElseClause>>,
    pub loc: SourceSpan,
}

/// `while`/`until` condition and body.
#[derive(Debug)]
pub struct WhileOrUntilClauseCommand(pub CompoundList, pub DoGroupCommand, pub SourceSpan);

/// `for name [in words]; do ... done`
#[derive(Debug)]
pub struct ForClauseCommand {
    pub variable_name: String,
    pub values: Option<Vec<Word>>,
    pub body: DoGroupCommand,
    pub loc: SourceSpan,
}

/// `for (( init; cond; update )) body`
#[derive(Debug)]
pub struct ArithmeticForClauseCommand {
    pub initializer: Option<UnexpandedArithmeticExpr>,
    pub condition: Option<UnexpandedArithmeticExpr>,
    pub updater: Option<UnexpandedArithmeticExpr>,
    pub body: DoGroupCommand,
    pub loc: SourceSpan,
}

/// `pattern | pattern) commands ;;`
#[derive(Debug)]
pub struct CaseItem {
    pub patterns: Vec<Word>,
    pub cmd: Option<CompoundList>,
    pub post_action: CaseItemPostAction,
    pub loc: Option<SourceSpan>,
}

/// `case word in items esac`
#[derive(Debug)]
pub struct CaseClauseCommand {
    pub value: Word,
    pub cases: Vec<CaseItem>,
    pub loc: SourceSpan,
}

/// A compound command.
#[derive(Debug)]
pub enum CompoundCommand {
    Arithmetic(ArithmeticCommand),
    ArithmeticForClause(ArithmeticForClauseCommand),
    BraceGroup(BraceGroupCommand),
    Subshell(SubshellCommand),
    ForClause(ForClauseCommand),
    CaseClause(CaseClauseCommand),
    IfClause(IfClauseCommand),
    WhileClause(WhileOrUntilClauseCommand),
    UntilClause(WhileOrUntilClauseCommand),
}

/// The body of a function: a compound command and optional redirections.
#[derive(Debug)]
pub struct FunctionBody(pub CompoundCommand, pub Option<RedirectList>);

/// `[function] name [()] body`
#[derive(Debug)]
pub struct FunctionDefinition {
    pub fname: Word,
    pub body: FunctionBody,
}

// ---------------------------------------------------------------- models of the command tree

pub enum SItem {
    IoRedirect(SIoRedirect),
    Word(SWord),
    AssignmentWord(SAssignment, SWord),
    ProcessSubstitution(ProcessSubstitutionKind, SSubshell),
}

pub struct SSimpleCommand {
    pub prefix: Option<Seq<SItem>>,
    pub word_or_name: Option<SWord>,
    pub suffix: Option<Seq<SItem>>,
}

pub enum SCommand {
    Simple(SSimpleCommand),
    Compound(SCompoundCommand, Option<Seq<SIoRedirect>>),
    Function(SFunctionDefinition),
    ExtendedTest(SExtendedTestExprCommand),
}

pub struct SPipeline {
    pub bang: bool,
    pub seq: Seq<SCommand>,
}

pub enum SAndOr {
    And(SPipeline),
    Or(SPipeline),
}

pub struct SAndOrList {
    pub first: SPipeline,
    pub additional: Seq<SAndOr>,
}

pub struct SListItem {
    pub ao: SAndOrList,
    pub sep: SeparatorOperator,
}

/// A compound list as the sequence of its items.
pub type SCompoundList = Seq<SListItem>;

pub struct SSubshell {
    pub list: SCompoundList,
    pub loc: SourceSpan,
}

pub struct SElseClause {
    pub condition: Option<SCompoundList>,
    pub body: SCompoundList,
}

pub struct SIfClause {
    pub condition: SCompoundList,
    pub then_body: SCompoundList,
    pub elses: Option<Seq<SElseClause>>,
    pub loc: SourceSpan,
}

pub struct SWhileOrUntil {
    pub condition: SCompoundList,
    pub body: SSubshell,
    pub loc: SourceSpan,
}

pub struct SForClause {
    pub variable_name: Seq<char>,
    pub values: Option<Seq<SWord>>,
    pub body: SSubshell,
    pub loc: SourceSpan,
}

pub struct SArithmeticFor {
    pub initializer: Option<Seq<char>>,
    pub condition: Option<Seq<char>>,
    pub updater: Option<Seq<char>>,
    pub body: SSubshell,
    pub loc: SourceSpan,
}

pub struct SCaseItem {
    pub patterns: Seq<SWord>,
    pub cmd: Option<SCompoundList>,
    pub post_action: CaseItemPostAction,
    pub loc: Option<SourceSpan>,
}

pub struct SCaseClause {
    pub value: SWord,
    pub cases: Seq<SCaseItem>,
    pub loc: SourceSpan,
}

/// The model of a compound command; a brace group, a subshell and a do group are
/// each a list with a location (`SSubshell`).
pub enum SCompoundCommand {
    Arithmetic(SArithmeticCommand),
    ArithmeticForClause(SArithmeticFor),
    BraceGroup(SSubshell),
    Subshell(SSubshell),
    ForClause(SForClause),
    CaseClause(SCaseClause),
    IfClause(SIfClause),
    WhileClause(SWhileOrUntil),
    UntilClause(SWhileOrUntil),
}

pub struct SFunctionDefinition {
    pub fname: SWord,
    pub body: SCompoundCommand,
    pub redirects: Option<Seq<SIoRedirect>>,
}

pub open spec fn view_words(v: Seq<Word>) -> Seq<SWord> {
    v.map_values(|w: Word| w@)
}

pub open spec fn view_opt_words(v: Option<Vec<Word>>) -> Option<Seq<SWord>> {
    match v {
        Some(v) => Some(view_words(v@)),
        None => None,
    }
}

pub open spec fn v_item(i: CommandPrefixOrSuffixItem) -> SItem
    decreases i,
{
    match i {
        CommandPrefixOrSuffixItem::IoRedirect(r) => SItem::IoRedirect(r@),
        CommandPrefixOrSuffixItem::Word(w) => SItem::Word(w@),
        CommandPrefixOrSuffixItem::AssignmentWord(a, w) => SItem::AssignmentWord(a@, w@),
        CommandPrefixOrSuffixItem::ProcessSubstitution(k, sub) => SItem::ProcessSubstitution(
            k,
            v_subshell(sub),
        ),
    }
}

pub open spec fn v_items(s: Seq<CommandPrefixOrSuffixItem>) -> Seq<SItem>
    decreases s,
{
    if s.len() == 0 {
        Seq::empty()
    } else {
        v_items(s.drop_last()).push(v_item(s.last()))
    }
}

pub open spec fn v_simple(c: SimpleCommand) -> SSimpleCommand
    decreases c,
{
    SSimpleCommand {
        prefix: match c.prefix {
            Some(p) => Some(v_items(p.0@)),
            None => None,
        },
        word_or_name: view_opt_word(c.word_or_name),
        suffix: match c.suffix {
            Some(p) => Some(v_items(p.0@)),
            None => None,
        },
    }
}

pub open spec fn v_command(c: Command) -> SCommand
    decreases c,
{
    match c {
        Command::Simple(sc) => SCommand::Simple(v_simple(sc)),
        Command::Compound(cc, r) => SCommand::Compound(v_compound(cc), view_opt_redirects(r)),
        Command::Function(f) => SCommand::Function(v_function(f)),
        Command::ExtendedTest(t) => SCommand::ExtendedTest(t@),
    }
}

pub open spec fn v_commands(s: Seq<Command>) -> Seq<SCommand>
    decreases s,
{
    if s.len() == 0 {
        Seq::empty()
    } else {
        v_commands(s.drop_last()).push(v_command(s.last()))
    }
}

pub open spec fn v_pipeline(p: Pipeline) -> SPipeline
    decreases p,
{
    SPipeline { bang: p.bang, seq: v_commands(p.seq@) }
}

pub open spec fn v_and_or(a: AndOr) -> SAndOr
    decreases a,
{
    match a {
        AndOr::And(p) => SAndOr::And(v_pipeline(p)),
        AndOr::Or(p) => SAndOr::Or(v_pipeline(p)),
    }
}

pub open spec fn v_and_ors(s: Seq<AndOr>) -> Seq<SAndOr>
    decreases s,
{
    if s.len() == 0 {
        Seq::empty()
    } else {
        v_and_ors(s.drop_last()).push(v_and_or(s.last()))
    }
}

pub open spec fn v_and_or_list(l: AndOrList) -> SAndOrList
    decreases l,
{
    SAndOrList { first: v_pipeline(l.first), additional: v_and_ors(l.additional@) }
}

pub open spec fn v_list_item(i: CompoundListItem) -> SListItem
    decreases i,
{
    SListItem { ao: v_and_or_list(i.0), sep: i.1 }
}

pub open spec fn v_list_items(s: Seq<CompoundListItem>) -> Seq<SListItem>
    decreases s,
{
    if s.len() == 0 {
        Seq::empty()
    } else {
        v_list_items(s.drop_last()).push(v_list_item(s.last()))
    }
}

pub open spec fn v_list(l: CompoundList) -> SCompoundList
    decreases l,
{
    v_list_items(l.0@)
}

pub open spec fn v_opt_list(l: Option<CompoundList>) -> Option<SCompoundList>
    decreases l,
{
    match l {
        Some(l) => Some(v_list(l)),
        None => None,
    }
}

pub open spec fn v_subshell(s: SubshellCommand) -> SSubshell
    decreases s,
{
    SSubshell { list: v_list(s.list), loc: s.loc }
}

pub open spec fn v_brace(s: BraceGroupCommand) -> SSubshell
    decreases s,
{
    SSubshell { list: v_list(s.list), loc: s.loc }
}

pub open spec fn v_do(s: DoGroupCommand) -> SSubshell
    decreases s,
{
    SSubshell { list: v_list(s.list), loc: s.loc }
}

pub open spec fn v_else(e: ElseClause) -> SElseClause
    decreases e,
{
    SElseClause { condition: v_opt_list(e.condition), body: v_list(e.body) }
}

pub open spec fn v_elses(s: Seq<ElseClause>) -> Seq<SElseClause>
    decreases s,
{
    if s.len() == 0 {
        Seq::empty()
    } else {
        v_elses(s.drop_last()).push(v_else(s.last()))
    }
}

pub open spec fn v_if(c: IfClauseCommand) -> SIfClause
    decreases c,
{
    SIfClause {
        condition: v_list(c.condition),
        then_body: v_list(c.then_body),
        elses: match c.elses {
            Some(v) => Some(v_elses(v@)),
            None => None,
        },
        loc: c.loc,
    }
}

pub open spec fn v_while(c: WhileOrUntilClauseCommand) -> SWhileOrUntil
    decreases c,
{
    SWhileOrUntil { condition: v_list(c.0), body: v_do(c.1), loc: c.2 }
}

pub open spec fn v_for(c: ForClauseCommand) -> SForClause
    decreases c,
{
    SForClause {
        variable_name: c.variable_name@,
        values: view_opt_words(c.values),
        body: v_do(c.body),
        loc: c.loc,
    }
}

pub open spec fn v_arith_for(c: ArithmeticForClauseCommand) -> SArithmeticFor
    decreases c,
{
    SArithmeticFor {
        initializer: view_opt_arith(c.initializer),
        condition: view_opt_arith(c.condition),
        updater: view_opt_arith(c.updater),
        body: v_do(c.body),
        loc: c.loc,
    }
}

pub open spec fn v_case_item(c: CaseItem) -> SCaseItem
    decreases c,
{
    SCaseItem {
        patterns: view_words(c.patterns@),
        cmd: v_opt_list(c.cmd),
        post_action: c.post_action,
        loc: c.loc,
    }
}

pub open spec fn v_case_items(s: Seq<CaseItem>) -> Seq<SCaseItem>
    decreases s,
{
    if s.len() == 0 {
        Seq::empty()
    } else {
        v_case_items(s.drop_last()).push(v_case_item(s.last()))
    }
}

pub open spec fn v_case(c: CaseClauseCommand) -> SCaseClause
    decreases c,
{
    SCaseClause { value: c.value@, cases: v_case_items(c.cases@), loc: c.loc }
}

pub open spec fn v_compound(c: CompoundCommand) -> SCompoundCommand
    decreases c,
{
    match c {
        CompoundCommand::Arithmetic(a) => SCompoundCommand::Arithmetic(a@),
        CompoundCommand::ArithmeticForClause(f) => SCompoundCommand::ArithmeticForClause(
            v_arith_for(f),
        ),
        CompoundCommand::BraceGroup(b) => SCompoundCommand::BraceGroup(v_brace(b)),
        CompoundCommand::Subshell(b) => SCompoundCommand::Subshell(v_subshell(b)),
        CompoundCommand::ForClause(f) => SCompoundCommand::ForClause(v_for(f)),
        CompoundCommand::CaseClause(f) => SCompoundCommand::CaseClause(v_case(f)),
        CompoundCommand::IfClause(f) => SCompoundCommand::IfClause(v_if(f)),
        CompoundCommand::WhileClause(f) => SCompoundCommand::WhileClause(v_while(f)),
        CompoundCommand::UntilClause(f) => SCompoundCommand::UntilClause(v_while(f)),
    }
}

pub open spec fn v_function(f: FunctionDefinition) -> SFunctionDefinition
    decreases f,
{
    SFunctionDefinition {
        fname: f.fname@,
        body: v_compound(f.body.0),
        redirects: view_opt_redirects(f.body.1),
    }
}

pub open spec fn v_lists(s: Seq<CompoundList>) -> Seq<SCompoundList>
    decreases s,
{
    if s.len() == 0 {
        Seq::empty()
    } else {
        v_lists(s.drop_last()).push(v_list(s.last()))
    }
}

pub open spec fn v_program(p: Program) -> Seq<SCompoundList> {
    v_lists(p.complete_commands@)
}

pub proof fn lemma_v_items_push(s: Seq<CommandPrefixOrSuffixItem>, x: CommandPrefixOrSuffixItem)
    ensures
        v_items(s.push(x)) == v_items(s).push(v_item(x)),
        v_items(Seq::<CommandPrefixOrSuffixItem>::empty()) == Seq::<SItem>::empty(),
{
    assert(s.push(x).drop_last() =~= s);
}

pub proof fn lemma_v_commands_push(s: Seq<Command>, x: Command)
    ensures
        v_commands(s.push(x)) == v_commands(s).push(v_command(x)),
        v_commands(Seq::<Command>::empty()) == Seq::<SCommand>::empty(),
{
    assert(s.push(x).drop_last() =~= s);
}

pub proof fn lemma_v_and_ors_push(s: Seq<AndOr>, x: AndOr)
    ensures
        v_and_ors(s.push(x)) == v_and_ors(s).push(v_and_or(x)),
        v_and_ors(Seq::<AndOr>::empty()) == Seq::<SAndOr>::empty(),
{
    assert(s.push(x).drop_last() =~= s);
}

pub proof fn lemma_v_list_items_push(s: Seq<CompoundListItem>, x: CompoundListItem)
    ensures
        v_list_items(s.push(x)) == v_list_items(s).push(v_list_item(x)),
        v_list_items(Seq::<CompoundListItem>::empty()) == Seq::<SListItem>::empty(),
{
    assert(s.push(x).drop_last() =~= s);
}

pub proof fn lemma_v_elses_push(s: Seq<ElseClause>, x: ElseClause)
    ensures
        v_elses(s.push(x)) == v_elses(s).push(v_else(x)),
        v_elses(Seq::<ElseClause>::empty()) == Seq::<SElseClause>::empty(),
{
    assert(s.push(x).drop_last() =~= s);
}

pub proof fn lemma_v_case_items_push(s: Seq<CaseItem>, x: CaseItem)
    ensures
        v_case_items(s.push(x)) == v_case_items(s).push(v_case_item(x)),
        v_case_items(Seq::<CaseItem>::empty()) == Seq::<SCaseItem>::empty(),
{
    assert(s.push(x).drop_last() =~= s);
}

pub proof fn lemma_v_lists_push(s: Seq<CompoundList>, x: CompoundList)
    ensures
        v_lists(s.push(x)) == v_lists(s).push(v_list(x)),
        v_lists(Seq::<CompoundList>::empty()) == Seq::<SCompoundList>::empty(),
{
    assert(s.push(x).drop_last() =~= s);
}

pub proof fn lemma_view_words_push(s: Seq<Word>, x: Word)
    ensures
        view_words(s.push(x)) == view_words(s).push(x@),
{
    assert(view_words(s.push(x)) =~= view_words(s).push(x@));
}

pub proof fn lemma_view_redirects_push(s: Seq<IoRedirect>, x: IoRedirect)
    ensures
        view_redirects(s.push(x)) == view_redirects(s).push(x@),
{
    assert(view_redirects(s.push(x)) =~= view_redirects(s).push(x@));
}

pub proof fn lemma_view_elements_push(s: Seq<(Option<Word>, Word)>, x: (Option<Word>, Word))
    ensures
        view_elements(s.push(x)) == view_elements(s).push((view_opt_word(x.0), x.1@)),
{
    assert(view_elements(s.push(x)) =~= view_elements(s).push((view_opt_word(x.0), x.1@)));
}

} // verus!
