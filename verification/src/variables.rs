use crate::text::{
    all_digits, decimal, digits_value, find, first_occurrence, lemma_first_occurrence, occurs_at,
    parse_index, push_decimal, same_text, stands_at, trim, trimmed,
};
use vstd::prelude::*;
use vstd::string::StringExecFns;

verus! {

/// A variable that a template can name between `%{` and `}`.
#[derive(Clone, Copy, Debug, PartialEq, Eq, Structural)]
pub enum Variable {
    Basename,
    Filename,
    Dirname,
    Cwd,
    LineNumber,
    Selection,
    CursorColumn,
    Lang,
    Ext,
    /// A positional argument, counted from zero.
    Arg(u64),
}

/// A document's path, with the parts that templates can ask for.
#[derive(Clone, Debug, PartialEq, Eq)]
pub struct DocumentPath {
    /// The whole path, where it is valid text.
    pub full: Option<String>,
    /// Its last component.
    pub file_name: Option<String>,
    /// The path of the directory that holds it.
    pub parent: Option<String>,
    /// The extension of its last component.
    pub extension: Option<String>,
}

/// What one expansion reads: a snapshot taken when the command is invoked.
#[derive(Clone, Debug, PartialEq, Eq)]
pub struct ExpansionContext {
    /// The document's path; `None` for a document that was never saved.
    pub path: Option<DocumentPath>,
    /// The document's language.
    pub language: Option<String>,
    /// The working directory.
    pub cwd: String,
    /// The line of the primary selection's cursor, counted from zero.
    pub cursor_line: usize,
    /// The position of the primary selection's cursor, counted from zero.
    pub cursor_column: usize,
    /// The text of the primary selection.
    pub selection: String,
    /// The shell's program, followed by its fixed leading arguments.
    pub shell: Vec<String>,
    /// The arguments that the caller gave, in order.
    pub args: Vec<String>,
}

/// Why an expansion failed.
#[derive(Clone, Debug, PartialEq, Eq)]
pub enum ExpansionError {
    /// A `%{` has no `}` after it.
    UnclosedVariable,
    /// The text between `%{` and `}` names no variable.
    UnknownVariable(String),
    /// The braces after `%sh{` never balance.
    UnclosedShellBlock,
    /// The shell exited with a failure; holds what it wrote to standard error.
    ShellFailed(String),
    /// The shell could not be started.
    SpawnFailed,
    /// The shell's output is not valid UTF-8.
    InvalidEncoding,
    /// A template asks for a positional argument that the caller did not give.
    MissingArgument(u64),
}

/// An `ExpansionError` with its texts as sequences of characters.
pub enum Failure {
    UnclosedVariable,
    UnknownVariable(Seq<char>),
    UnclosedShellBlock,
    ShellFailed(Seq<char>),
    SpawnFailed,
    InvalidEncoding,
    MissingArgument(u64),
}

impl View for ExpansionError {
    type V = Failure;

    open spec fn view(&self) -> Failure {
        match *self {
            ExpansionError::UnclosedVariable => Failure::UnclosedVariable,
            ExpansionError::UnknownVariable(name) => Failure::UnknownVariable(name@),
            ExpansionError::UnclosedShellBlock => Failure::UnclosedShellBlock,
            ExpansionError::ShellFailed(text) => Failure::ShellFailed(text@),
            ExpansionError::SpawnFailed => Failure::SpawnFailed,
            ExpansionError::InvalidEncoding => Failure::InvalidEncoding,
            ExpansionError::MissingArgument(index) => Failure::MissingArgument(index),
        }
    }
}

impl Failure {
    /// The one line that tells the user of this failure.
    pub open spec fn message(self) -> Seq<char> {
        match self {
            Failure::UnclosedVariable => "variable was not closed"@,
            Failure::UnknownVariable(name) => "unknown variable `"@ + name + "`"@,
            Failure::UnclosedShellBlock => "`%sh` block was not closed"@,
            Failure::ShellFailed(text) => "failed to evaluate `%sh` block: "@ + text,
            Failure::SpawnFailed => "shell command failed"@,
            Failure::InvalidEncoding => "process did not output valid UTF-8"@,
            Failure::MissingArgument(index) => "missing argument "@ + decimal(index as nat),
        }
    }
}

impl ExpansionError {
    /// The one line that tells the user of this failure.
    pub fn message(&self) -> (r: String)
        ensures
            r@ == self@.message(),
    {
        match self {
            ExpansionError::UnclosedVariable => String::from_str("variable was not closed"),
            ExpansionError::UnknownVariable(name) => {
                let mut text: String = String::from_str("unknown variable `");
                text.append(name.as_str());
                text.append("`");
                text
            },
            ExpansionError::UnclosedShellBlock => String::from_str("`%sh` block was not closed"),
            ExpansionError::ShellFailed(output) => {
                let mut text: String = String::from_str("failed to evaluate `%sh` block: ");
                text.append(output.as_str());
                text
            },
            ExpansionError::SpawnFailed => String::from_str("shell command failed"),
            ExpansionError::InvalidEncoding => String::from_str(
                "process did not output valid UTF-8",
            ),
            ExpansionError::MissingArgument(index) => {
                let mut text: String = String::from_str("missing argument ");
                push_decimal(&mut text, *index as u128);
                text
            },
        }
    }
}

/// A result with its text and its error taken by their views.
pub open spec fn outcome(r: Result<String, ExpansionError>) -> Result<Seq<char>, Failure> {
    match r {
        Ok(text) => Ok(text@),
        Err(e) => Err(e@),
    }
}

/// The marker that opens a variable.
pub open spec fn open_marker() -> Seq<char> {
    seq!['%', '{']
}

/// The marker that closes a variable.
pub open spec fn close_marker() -> Seq<char> {
    seq!['}']
}

/// The marker that opens a shell block.
pub open spec fn shell_marker() -> Seq<char> {
    seq!['%', 's', 'h', '{']
}

/// What stands for a path that the document does not have.
pub open spec fn scratch_name() -> Seq<char> {
    "[scratch]"@
}

/// What stands for a language that the document does not have.
pub open spec fn plain_language() -> Seq<char> {
    "text"@
}

/// The variable that `name` denotes, if any. The names are matched exactly;
/// `arg` is `arg:0`, and an index is a run of decimal digits that fits in
/// 64 bits.
pub open spec fn parse_variable(name: Seq<char>) -> Option<Variable> {
    if name == "basename"@ {
        Some(Variable::Basename)
    } else if name == "filename"@ {
        Some(Variable::Filename)
    } else if name == "dirname"@ {
        Some(Variable::Dirname)
    } else if name == "cwd"@ {
        Some(Variable::Cwd)
    } else if name == "linenumber"@ {
        Some(Variable::LineNumber)
    } else if name == "selection"@ {
        Some(Variable::Selection)
    } else if name == "cursorcolumn"@ {
        Some(Variable::CursorColumn)
    } else if name == "lang"@ {
        Some(Variable::Lang)
    } else if name == "ext"@ {
        Some(Variable::Ext)
    } else if name == "arg"@ {
        Some(Variable::Arg(0))
    } else if occurs_at(name, seq!['a', 'r', 'g', ':'], 0) && all_digits(name.skip(4))
        && digits_value(name.skip(4)) <= u64::MAX {
        Some(Variable::Arg(digits_value(name.skip(4)) as u64))
    } else {
        None
    }
}

/// The text of an optional value, or `default` where there is none.
pub open spec fn text_or(value: Option<String>, default: Seq<char>) -> Seq<char> {
    match value {
        Some(text) => text@,
        None => default,
    }
}

impl ExpansionContext {
    /// The last component of the document's path.
    pub open spec fn basename(self) -> Option<String> {
        match self.path {
            Some(path) => path.file_name,
            None => None,
        }
    }

    /// The document's whole path.
    pub open spec fn filename(self) -> Option<String> {
        match self.path {
            Some(path) => path.full,
            None => None,
        }
    }

    /// The directory of the document's path.
    pub open spec fn dirname(self) -> Option<String> {
        match self.path {
            Some(path) => path.parent,
            None => None,
        }
    }

    /// The extension of the document's path.
    pub open spec fn extension(self) -> Option<String> {
        match self.path {
            Some(path) => path.extension,
            None => None,
        }
    }

    /// What `var` stands for: a text, or the index of the argument that is
    /// missing. Lines and columns are written counted from one.
    pub open spec fn resolve(self, var: Variable) -> Result<Seq<char>, Failure> {
        match var {
            Variable::Basename => Ok(text_or(self.basename(), scratch_name())),
            Variable::Filename => Ok(text_or(self.filename(), scratch_name())),
            Variable::Dirname => Ok(text_or(self.dirname(), scratch_name())),
            Variable::Cwd => Ok(self.cwd@),
            Variable::LineNumber => Ok(decimal((self.cursor_line + 1) as nat)),
            Variable::Selection => Ok(self.selection@),
            Variable::CursorColumn => Ok(decimal((self.cursor_column + 1) as nat)),
            Variable::Lang => Ok(text_or(self.language, plain_language())),
            Variable::Ext => Ok(text_or(self.extension(), Seq::empty())),
            Variable::Arg(index) => if index < self.args@.len() {
                Ok(self.args@[index as int]@)
            } else {
                Err(Failure::MissingArgument(index))
            },
        }
    }

    /// Appends to `out` what `var` stands for; on a missing argument `out`
    /// stays as it was.
    pub fn append_value(&self, var: Variable, out: &mut String) -> (r: Result<(), ExpansionError>)
        ensures
            match self.resolve(var) {
                Ok(value) => r.is_ok() && final(out)@ == old(out)@ + value,
                Err(e) => r.is_err() && r.unwrap_err()@ == e && final(out)@ == old(out)@,
            },
    {
        match var {
            Variable::Basename => {
                match &self.path {
                    Some(DocumentPath { file_name: Some(name), .. }) => out.append(name.as_str()),
                    _ => out.append("[scratch]"),
                }
            },
            Variable::Filename => {
                match &self.path {
                    Some(DocumentPath { full: Some(name), .. }) => out.append(name.as_str()),
                    _ => out.append("[scratch]"),
                }
            },
            Variable::Dirname => {
                match &self.path {
                    Some(DocumentPath { parent: Some(name), .. }) => out.append(name.as_str()),
                    _ => out.append("[scratch]"),
                }
            },
            Variable::Cwd => out.append(self.cwd.as_str()),
            Variable::LineNumber => push_decimal(out, self.cursor_line as u128 + 1),
            Variable::Selection => out.append(self.selection.as_str()),
            Variable::CursorColumn => push_decimal(out, self.cursor_column as u128 + 1),
            Variable::Lang => {
                match &self.language {
                    Some(name) => out.append(name.as_str()),
                    None => out.append("text"),
                }
            },
            Variable::Ext => {
                match &self.path {
                    Some(DocumentPath { extension: Some(name), .. }) => out.append(name.as_str()),
                    _ => {
                        assert(out@ + Seq::<char>::empty() =~= out@);
                    },
                }
            },
            Variable::Arg(index) => {
                if index < self.args.len() as u64 {
                    out.append(self.args[index as usize].as_str());
                } else {
                    return Err(ExpansionError::MissingArgument(index));
                }
            },
        }
        Ok(())
    }
}

impl Variable {
    /// Reads a variable's name.
    pub fn parse(name: &str) -> (r: Option<Variable>)
        ensures
            r == parse_variable(name@),
    {
        if same_text(name, "basename") {
            Some(Variable::Basename)
        } else if same_text(name, "filename") {
            Some(Variable::Filename)
        } else if same_text(name, "dirname") {
            Some(Variable::Dirname)
        } else if same_text(name, "cwd") {
            Some(Variable::Cwd)
        } else if same_text(name, "linenumber") {
            Some(Variable::LineNumber)
        } else if same_text(name, "selection") {
            Some(Variable::Selection)
        } else if same_text(name, "cursorcolumn") {
            Some(Variable::CursorColumn)
        } else if same_text(name, "lang") {
            Some(Variable::Lang)
        } else if same_text(name, "ext") {
            Some(Variable::Ext)
        } else if same_text(name, "arg") {
            Some(Variable::Arg(0))
        } else {
            proof {
                reveal_strlit("arg:");
                assert("arg:"@ =~= seq!['a', 'r', 'g', ':']);
            }
            if stands_at(name, "arg:", 0) {
                let n: usize = name.unicode_len();
                let digits: &str = name.substring_char(4, n);
                assert(digits@ =~= name@.skip(4));
                match parse_index(digits) {
                    Some(index) => Some(Variable::Arg(index)),
                    None => None,
                }
            } else {
                None
            }
        }
    }
}

/// Puts `head` before the text of a result; an error stays as it is.
pub open spec fn prepend(head: Seq<char>, tail: Result<Seq<char>, Failure>) -> Result<
    Seq<char>,
    Failure,
> {
    match tail {
        Ok(rest) => Ok(head + rest),
        Err(e) => Err(e),
    }
}

/// The template from `from` on, with each variable replaced by what it stands
/// for in `ctx`. The markers are sought from left to right in the template
/// alone: a value that was put in is not read again. The first marker that
/// cannot be replaced decides the error.
pub open spec fn substituted_from(ctx: ExpansionContext, s: Seq<char>, from: int) -> Result<
    Seq<char>,
    Failure,
>
    decreases s.len() - from,
    via substituted_from_decreases
{
    match first_occurrence(s, open_marker(), from) {
        None => Ok(s.subrange(from, s.len() as int)),
        Some(start) => match first_occurrence(s, close_marker(), start + 2) {
            None => Err(Failure::UnclosedVariable),
            Some(end) => {
                let name = trimmed(s.subrange(start + 2, end));
                match parse_variable(name) {
                    None => Err(Failure::UnknownVariable(name)),
                    Some(var) => match ctx.resolve(var) {
                        Err(e) => Err(e),
                        Ok(value) => prepend(
                            s.subrange(from, start) + value,
                            substituted_from(ctx, s, end + 1),
                        ),
                    },
                }
            },
        },
    }
}

#[via_fn]
proof fn substituted_from_decreases(ctx: ExpansionContext, s: Seq<char>, from: int) {
    if from >= 0 {
        lemma_first_occurrence(s, open_marker(), from);
        match first_occurrence(s, open_marker(), from) {
            Some(start) => lemma_first_occurrence(s, close_marker(), start + 2),
            None => {},
        }
    }
}

/// The whole template with its variables replaced.
pub open spec fn substituted(ctx: ExpansionContext, s: Seq<char>) -> Result<Seq<char>, Failure> {
    substituted_from(ctx, s, 0)
}

/// Replaces each `%{name}` of `input` by what `name` stands for in `ctx`.
pub fn substitute_variables(ctx: &ExpansionContext, input: &str) -> (r: Result<
    String,
    ExpansionError,
>)
    ensures
        outcome(r) == substituted(*ctx, input@),
{
    let n: usize = input.unicode_len();
    let mut out: String = String::new();
    let mut pos: usize = 0;
    proof {
        reveal_strlit("%{");
        reveal_strlit("}");
        assert("%{"@ =~= open_marker());
        assert("}"@ =~= close_marker());
        assert(prepend(out@, substituted_from(*ctx, input@, 0)) == substituted_from(
            *ctx,
            input@,
            0,
        )) by {
            match substituted_from(*ctx, input@, 0) {
                Ok(rest) => assert(out@ + rest =~= rest),
                Err(_) => {},
            }
        }
    }
    loop
        invariant
            pos <= n,
            n == input@.len(),
            "%{"@ == open_marker(),
            "}"@ == close_marker(),
            substituted(*ctx, input@) == prepend(out@, substituted_from(*ctx, input@, pos as int)),
        decreases n - pos,
    {
        let ghost before = out@;
        proof {
            lemma_first_occurrence(input@, open_marker(), pos as int);
        }
        let start: usize = match find(input, "%{", pos) {
            Some(start) => start,
            None => {
                out.append(input.substring_char(pos, n));
                return Ok(out);
            },
        };
        proof {
            lemma_first_occurrence(input@, close_marker(), start + 2);
        }
        let end: usize = match find(input, "}", start + 2) {
            Some(end) => end,
            None => {
                return Err(ExpansionError::UnclosedVariable);
            },
        };
        let name: &str = trim(input.substring_char(start + 2, end));
        let var: Variable = match Variable::parse(name) {
            Some(var) => var,
            None => {
                return Err(ExpansionError::UnknownVariable(String::from_str(name)));
            },
        };
        out.append(input.substring_char(pos, start));
        match ctx.append_value(var, &mut out) {
            Ok(()) => {},
            Err(e) => {
                return Err(e);
            },
        }
        proof {
            let value = ctx.resolve(var)->Ok_0;
            let tail = substituted_from(*ctx, input@, end + 1);
            assert(out@ == before + input@.subrange(pos as int, start as int) + value);
            match tail {
                Ok(rest) => {
                    assert(before + (input@.subrange(pos as int, start as int) + value + rest)
                        =~= out@ + rest);
                },
                Err(_) => {},
            }
        }
        pos = end + 1;
    }
}

/// The position of the `}` that closes a block which is open `depth` levels
/// deep at `i`, counting `{` and `}` from `i` on.
pub open spec fn matching_close(s: Seq<char>, i: int, depth: nat) -> Option<int>
    decreases s.len() - i,
{
    if i < 0 || i >= s.len() {
        None
    } else if s[i] == '{' {
        matching_close(s, i + 1, depth + 1)
    } else if s[i] == '}' {
        if depth <= 1 {
            Some(i)
        } else {
            matching_close(s, i + 1, (depth - 1) as nat)
        }
    } else {
        matching_close(s, i + 1, depth)
    }
}

/// Where a shell block stands in a text: `start` is the position of its `%`,
/// `end` that of its closing `}`.
#[derive(Clone, Copy, Debug, PartialEq, Eq)]
pub struct BlockSpan {
    pub start: usize,
    pub end: usize,
}

/// The first shell block of `s`: none where `s` holds no `%sh{`, an error
/// where the braces after the first `%sh{` never balance.
pub open spec fn shell_block(s: Seq<char>) -> Result<Option<(int, int)>, Failure> {
    match first_occurrence(s, shell_marker(), 0) {
        None => Ok(None),
        Some(start) => match matching_close(s, start + 4, 1) {
            None => Err(Failure::UnclosedShellBlock),
            Some(end) => Ok(Some((start, end))),
        },
    }
}

/// Finds the first shell block of `text`.
pub fn find_shell_block(text: &str) -> (r: Result<Option<BlockSpan>, ExpansionError>)
    ensures
        match r {
            Ok(None) => shell_block(text@) == Ok::<Option<(int, int)>, Failure>(None),
            Ok(Some(span)) => shell_block(text@) == Ok::<Option<(int, int)>, Failure>(
                Some((span.start as int, span.end as int)),
            ) && span.start + 4 <= span.end < text@.len(),
            Err(e) => shell_block(text@) == Err::<Option<(int, int)>, Failure>(e@),
        },
{
    proof {
        reveal_strlit("%sh{");
        assert("%sh{"@ =~= shell_marker());
        lemma_first_occurrence(text@, shell_marker(), 0);
    }
    let start: usize = match find(text, "%sh{", 0) {
        Some(start) => start,
        None => {
            return Ok(None);
        },
    };
    let n: usize = text.unicode_len();
    let mut depth: usize = 1;
    let mut i: usize = start + 4;
    while i < n
        invariant
            start + 4 <= i <= n,
            n == text@.len(),
            1 <= depth <= i,
            first_occurrence(text@, shell_marker(), 0) == Some(start as int),
            matching_close(text@, start + 4, 1) == matching_close(text@, i as int, depth as nat),
        decreases n - i,
    {
        let c: char = text.get_char(i);
        if c == '{' {
            depth += 1;
        } else if c == '}' {
            if depth == 1 {
                return Ok(Some(BlockSpan { start, end: i }));
            }
            depth -= 1;
        }
        i += 1;
    }
    Err(ExpansionError::UnclosedShellBlock)
}

/// A shell block waiting for its output: the text before the block, the
/// command to hand to the shell, and the text after the block.
#[derive(Clone, Debug, PartialEq, Eq)]
pub struct ShellRequest {
    pub before: String,
    pub command: String,
    pub after: String,
}

/// How far an expansion got without running anything.
#[derive(Clone, Debug, PartialEq, Eq)]
pub enum Expansion {
    /// The template holds no shell block: this is the expanded text.
    Done(String),
    /// The template holds a shell block, whose output is still to be had.
    Shell(ShellRequest),
}

/// An `Expansion` with its texts as sequences of characters.
pub enum Plan {
    Done(Seq<char>),
    Shell { before: Seq<char>, command: Seq<char>, after: Seq<char> },
}

impl View for Expansion {
    type V = Plan;

    open spec fn view(&self) -> Plan {
        match *self {
            Expansion::Done(text) => Plan::Done(text@),
            Expansion::Shell(request) => Plan::Shell {
                before: request.before@,
                command: request.command@,
                after: request.after@,
            },
        }
    }
}

/// What expanding `template` in `ctx` comes to: first every variable is
/// replaced, then the first shell block of the resulting text, if there is
/// one, is cut out with its inner text trimmed. A later `%sh{` stays in
/// `after` as it is written.
pub open spec fn expansion(ctx: ExpansionContext, template: Seq<char>) -> Result<Plan, Failure> {
    match substituted(ctx, template) {
        Err(e) => Err(e),
        Ok(text) => match shell_block(text) {
            Err(e) => Err(e),
            Ok(None) => Ok(Plan::Done(text)),
            Ok(Some((start, end))) => Ok(
                Plan::Shell {
                    before: text.subrange(0, start),
                    command: trimmed(text.subrange(start + 4, end)),
                    after: text.subrange(end + 1, text.len() as int),
                },
            ),
        },
    }
}

/// Expands a template up to the point where a shell has to run. With
/// `Expansion::Shell` the caller runs the command and hands what it wrote to
/// `ShellRequest::splice`.
pub fn expand(ctx: &ExpansionContext, input: &str) -> (r: Result<Expansion, ExpansionError>)
    ensures
        match r {
            Ok(done) => expansion(*ctx, input@) == Ok::<Plan, Failure>(done@),
            Err(e) => expansion(*ctx, input@) == Err::<Plan, Failure>(e@),
        },
{
    let text: String = match substitute_variables(ctx, input) {
        Ok(text) => text,
        Err(e) => {
            return Err(e);
        },
    };
    let span: BlockSpan = match find_shell_block(text.as_str()) {
        Ok(Some(span)) => span,
        Ok(None) => {
            return Ok(Expansion::Done(text));
        },
        Err(e) => {
            return Err(e);
        },
    };
    let whole: &str = text.as_str();
    let n: usize = whole.unicode_len();
    let before: String = String::from_str(whole.substring_char(0, span.start));
    let command: String = String::from_str(trim(whole.substring_char(span.start + 4, span.end)));
    let after: String = String::from_str(whole.substring_char(span.end + 1, n));
    Ok(Expansion::Shell(ShellRequest { before, command, after }))
}

impl ShellRequest {
    /// The expanded text, once the shell has written `output`: the output
    /// stands where the block stood, between what was before and after it.
    pub fn splice(&self, output: &str) -> (r: String)
        ensures
            r@ == self.before@ + output@ + self.after@,
    {
        let mut text: String = String::from_str(self.before.as_str());
        text.append(output);
        text.append(self.after.as_str());
        text
    }

    /// What the expansion comes to once the shell has run: the text with the
    /// shell's output in the block's place, or the error that the run ended
    /// in, with nothing of the text.
    pub open spec fn completed(self, run: Option<ProcessOutput>) -> Result<Seq<char>, Failure> {
        match shell_outcome(run) {
            Ok(output) => Ok(self.before@ + output + self.after@),
            Err(e) => Err(e),
        }
    }

    /// Ends the expansion with what the shell left behind; `None` stands for
    /// a shell that could not be started.
    pub fn complete(&self, run: Option<ProcessOutput>) -> (r: Result<String, ExpansionError>)
        ensures
            outcome(r) == self.completed(run),
    {
        match shell_result(run) {
            Ok(output) => Ok(self.splice(output.as_str())),
            Err(e) => Err(e),
        }
    }
}

/// The process to start for a shell command.
#[derive(Clone, Debug, PartialEq, Eq)]
pub struct Invocation {
    pub program: String,
    pub args: Vec<String>,
}

/// The process that runs `command` in `shell`: the shell's program, then its
/// fixed arguments, then the command as the last argument.
pub fn shell_invocation(shell: &Vec<String>, command: &str) -> (r: Invocation)
    requires
        shell@.len() > 0,
    ensures
        r.program@ == shell@[0]@,
        r.args@.len() == shell@.len(),
        forall|i: int| 0 <= i < shell@.len() - 1 ==> (#[trigger] r.args@[i])@ == shell@[i + 1]@,
        r.args@[shell@.len() - 1]@ == command@,
{
    let program: String = String::from_str(shell[0].as_str());
    let mut args: Vec<String> = Vec::new();
    let mut i: usize = 1;
    while i < shell.len()
        invariant
            1 <= i <= shell@.len(),
            args@.len() == i - 1,
            forall|j: int| 0 <= j < i - 1 ==> (#[trigger] args@[j])@ == shell@[j + 1]@,
        decreases shell@.len() - i,
    {
        args.push(String::from_str(shell[i].as_str()));
        i += 1;
    }
    args.push(String::from_str(command));
    Invocation { program, args }
}

/// What a process left behind when it exited.
#[derive(Clone, Debug, PartialEq, Eq)]
pub struct ProcessOutput {
    /// Whether it exited with status zero.
    pub success: bool,
    /// What it wrote to standard output.
    pub stdout: Vec<u8>,
    /// What it wrote to standard error.
    pub stderr: Vec<u8>,
}

/// The text that `String::from_utf8_lossy` makes of `bytes`.
pub uninterp spec fn lossy_text(bytes: Seq<u8>) -> Seq<char>;

/// `String::from_utf8`: the text that `bytes` encode, or nothing where they
/// are not valid UTF-8.
#[verifier::external_body]
fn decode(bytes: Vec<u8>) -> (r: Option<String>)
    ensures
        match r {
            Some(text) => vstd::utf8::valid_utf8(bytes@) && text@ == vstd::utf8::decode_utf8(
                bytes@,
            ),
            None => !vstd::utf8::valid_utf8(bytes@),
        },
{
    String::from_utf8(bytes).ok()
}

/// `String::from_utf8_lossy`: the text of `bytes`, with a replacement
/// character for each run that is not valid UTF-8. Valid bytes are decoded as
/// they are.
#[verifier::external_body]
fn decode_lossy(bytes: &Vec<u8>) -> (r: String)
    ensures
        r@ == lossy_text(bytes@),
        vstd::utf8::valid_utf8(bytes@) ==> r@ == vstd::utf8::decode_utf8(bytes@),
{
    String::from_utf8_lossy(bytes).into_owned()
}

/// What a shell run comes to. `None` stands for a shell that could not be
/// started. After a successful exit the text is taken from standard output,
/// or from standard error where standard output is empty.
pub open spec fn shell_outcome(run: Option<ProcessOutput>) -> Result<Seq<char>, Failure> {
    match run {
        None => Err(Failure::SpawnFailed),
        Some(output) => if output.success {
            let bytes = if output.stdout@.len() > 0 {
                output.stdout@
            } else {
                output.stderr@
            };
            if vstd::utf8::valid_utf8(bytes) {
                Ok(vstd::utf8::decode_utf8(bytes))
            } else {
                Err(Failure::InvalidEncoding)
            }
        } else {
            Err(Failure::ShellFailed(lossy_text(output.stderr@)))
        },
    }
}

/// Decides what a shell run gave: its text, or the error that it ended in.
pub fn shell_result(run: Option<ProcessOutput>) -> (r: Result<String, ExpansionError>)
    ensures
        outcome(r) == shell_outcome(run),
{
    match run {
        None => Err(ExpansionError::SpawnFailed),
        Some(output) => {
            if output.success {
                let bytes: Vec<u8> = if output.stdout.len() > 0 {
                    output.stdout
                } else {
                    output.stderr
                };
                match decode(bytes) {
                    Some(text) => Ok(text),
                    None => Err(ExpansionError::InvalidEncoding),
                }
            } else {
                Err(ExpansionError::ShellFailed(decode_lossy(&output.stderr)))
            }
        },
    }
}

/// A template that holds neither `%{` nor `%sh{` expands to itself, without
/// a shell.
pub proof fn lemma_expand_identity(ctx: ExpansionContext, template: Seq<char>)
    requires
        forall|i: int| !occurs_at(template, open_marker(), i),
        forall|i: int| !occurs_at(template, shell_marker(), i),
    ensures
        expansion(ctx, template) == Ok::<Plan, Failure>(Plan::Done(template)),
{
    lemma_first_occurrence(template, open_marker(), 0);
    lemma_first_occurrence(template, shell_marker(), 0);
    assert(template.subrange(0, template.len() as int) =~= template);
}

/// Seeking a pattern from `k + from` on in `s` is seeking it from `from` on
/// in what `s` holds from `k` on.
pub proof fn lemma_first_occurrence_shift(s: Seq<char>, pat: Seq<char>, k: int, from: int)
    requires
        0 <= k <= s.len(),
        0 <= from,
    ensures
        first_occurrence(s, pat, k + from) == match first_occurrence(
            s.subrange(k, s.len() as int),
            pat,
            from,
        ) {
            Some(i) => Some(i + k),
            None => None,
        },
    decreases s.len() - k - from,
{
    let t = s.subrange(k, s.len() as int);
    if from + pat.len() > t.len() {
    } else {
        assert(t.subrange(from, from + pat.len()) =~= s.subrange(k + from, k + from + pat.len()));
        if !occurs_at(t, pat, from) {
            lemma_first_occurrence_shift(s, pat, k, from + 1);
        }
    }
}

/// Replacing the variables of `s` from `k + from` on is replacing those of
/// what `s` holds from `k` on, from `from` on.
pub proof fn lemma_substituted_shift(ctx: ExpansionContext, s: Seq<char>, k: int, from: int)
    requires
        0 <= k <= s.len(),
        0 <= from <= s.len() - k,
    ensures
        substituted_from(ctx, s, k + from) == substituted_from(
            ctx,
            s.subrange(k, s.len() as int),
            from,
        ),
    decreases s.len() - k - from,
{
    let t = s.subrange(k, s.len() as int);
    lemma_first_occurrence_shift(s, open_marker(), k, from);
    lemma_first_occurrence(t, open_marker(), from);
    assert(t.subrange(from, t.len() as int) =~= s.subrange(k + from, s.len() as int));
    match first_occurrence(t, open_marker(), from) {
        None => {},
        Some(start) => {
            lemma_first_occurrence_shift(s, close_marker(), k, start + 2);
            lemma_first_occurrence(t, close_marker(), start + 2);
            match first_occurrence(t, close_marker(), start + 2) {
                None => {},
                Some(end) => {
                    assert(t.subrange(start + 2, end) =~= s.subrange(k + start + 2, k + end));
                    assert(t.subrange(from, start) =~= s.subrange(k + from, k + start));
                    lemma_substituted_shift(ctx, s, k, end + 1);
                },
            }
        },
    }
}

/// In a text that starts with `before`, free of `%{`, and goes on with `%{`,
/// the first `%{` is the one behind `before`.
proof fn lemma_marker_found(s: Seq<char>, before: Seq<char>)
    requires
        forall|i: int| !occurs_at(before, open_marker(), i),
        before.len() + 2 <= s.len(),
        s.subrange(0, before.len() as int) == before,
        s[before.len() as int] == '%',
        s[before.len() as int + 1] == '{',
    ensures
        first_occurrence(s, open_marker(), 0) == Some(before.len() as int),
{
    let start = before.len() as int;
    lemma_first_occurrence(s, open_marker(), 0);
    assert(s.subrange(start, start + 2) =~= open_marker());
    assert(occurs_at(s, open_marker(), start));
    let k = first_occurrence(s, open_marker(), 0).unwrap();
    if k < start {
        assert(s.subrange(k, k + 2)[0] == '%');
        assert(s.subrange(k, k + 2)[1] == '{');
        if k + 2 <= start {
            assert(before.subrange(k, k + 2) =~= open_marker());
            assert(occurs_at(before, open_marker(), k));
        } else {
            assert(s[k + 1] == '%');
        }
    }
}

/// Where no `}` stands in `s` from `from` up to `end`, and one stands at
/// `end`, the first `}` from `from` on is the one at `end`.
proof fn lemma_close_found(s: Seq<char>, from: int, end: int)
    requires
        0 <= from <= end < s.len(),
        forall|i: int| from <= i < end ==> s[i] != '}',
        s[end] == '}',
    ensures
        first_occurrence(s, close_marker(), from) == Some(end),
{
    lemma_first_occurrence(s, close_marker(), from);
    assert(s.subrange(end, end + 1) =~= close_marker());
    assert(occurs_at(s, close_marker(), end));
    let k = first_occurrence(s, close_marker(), from).unwrap();
    if k < end {
        assert(s.subrange(k, k + 1)[0] == '}');
    }
}

/// Substitution is textual. In a template that starts with a text free of
/// `%{`, then holds a variable, the result is that text, then the variable's
/// value as it is, whatever it holds, then what the rest of the template
/// gives by itself.
pub proof fn lemma_value_not_rescanned(
    ctx: ExpansionContext,
    before: Seq<char>,
    name: Seq<char>,
    after: Seq<char>,
    var: Variable,
    value: Seq<char>,
)
    requires
        forall|i: int| !occurs_at(before, open_marker(), i),
        forall|i: int| 0 <= i < name.len() ==> name[i] != '}',
        parse_variable(trimmed(name)) == Some(var),
        ctx.resolve(var) == Ok::<Seq<char>, Failure>(value),
    ensures
        substituted(ctx, before + open_marker() + name + close_marker() + after) == prepend(
            before + value,
            substituted(ctx, after),
        ),
{
    let s = before + open_marker() + name + close_marker() + after;
    let start = before.len() as int;
    let end = start + 2 + name.len();
    assert(s.subrange(0, start) =~= before);
    assert(s[start] == '%' && s[start + 1] == '{');
    lemma_marker_found(s, before);
    assert(s[end] == '}');
    assert forall|i: int| start + 2 <= i < end implies s[i] != '}' by {
        assert(s[i] == name[i - start - 2]);
    }
    lemma_close_found(s, start + 2, end);
    assert(s.subrange(start + 2, end) =~= name);
    assert(s.subrange(end + 1, s.len() as int) =~= after);
    lemma_substituted_shift(ctx, s, end + 1, 0);
}

} // verus!
