use crate::custom::{CustomTypableCommand, CustomTypeableCommands};
use crate::text::{strip_colons, without_colons};
use crate::variables::{ExpansionError, Failure};
use vstd::string::StringExecFns;
use vstd::prelude::*;

verus! {

/// Why a macro-command stopped.
#[derive(Clone, Debug, PartialEq, Eq)]
pub enum CommandError {
    /// A template could not be expanded.
    Expansion(ExpansionError),
    /// An expanded template names a command that the editor does not have.
    UnknownInnerCommand(String),
    /// A command that a template maps to failed; holds its message.
    InnerCommandFailed(String),
}

/// A `CommandError` with its texts as sequences of characters.
pub enum CommandFailure {
    Expansion(Failure),
    UnknownInnerCommand(Seq<char>),
    InnerCommandFailed(Seq<char>),
}

impl View for CommandError {
    type V = CommandFailure;

    open spec fn view(&self) -> CommandFailure {
        match *self {
            CommandError::Expansion(e) => CommandFailure::Expansion(e@),
            CommandError::UnknownInnerCommand(name) => CommandFailure::UnknownInnerCommand(name@),
            CommandError::InnerCommandFailed(text) => CommandFailure::InnerCommandFailed(text@),
        }
    }
}

impl CommandFailure {
    /// The one line that tells the user why the macro-command stopped.
    pub open spec fn message(self) -> Seq<char> {
        match self {
            CommandFailure::Expansion(e) => e.message(),
            CommandFailure::UnknownInnerCommand(name) => "no such command: `"@ + name + "`"@,
            CommandFailure::InnerCommandFailed(text) => text,
        }
    }
}

impl CommandError {
    /// The one line that tells the user why the macro-command stopped.
    pub fn message(&self) -> (r: String)
        ensures
            r@ == self@.message(),
    {
        match self {
            CommandError::Expansion(e) => e.message(),
            CommandError::UnknownInnerCommand(name) => {
                let mut text: String = String::from_str("no such command: `");
                text.append(name.as_str());
                text.append("`");
                text
            },
            CommandError::InnerCommandFailed(output) => String::from_str(output.as_str()),
        }
    }
}

/// What a name on the command line invokes.
#[derive(Clone, Copy, Debug, PartialEq, Eq)]
pub enum Resolution<'a> {
    /// A user-defined command, whether or not a built-in has the same name.
    Custom(&'a CustomTypableCommand),
    /// No user-defined command answers to the name: the built-ins decide.
    Builtin,
}

/// What the caller of a macro-command does next.
#[derive(Debug, PartialEq, Eq)]
pub enum Step<'a> {
    /// Expand the template of the step at `index` and run what it gives.
    Run { index: usize, template: &'a str },
    /// Run nothing more: the macro-command ended with this result.
    Stop(Result<(), CommandError>),
}

/// The step at `index`, or the end of the macro-command behind its last step.
pub open spec fn step_at(command: CustomTypableCommand, index: int) -> Option<(int, Seq<char>)> {
    if 0 <= index < command.commands@.len() {
        Some((index, command.commands@[index]@))
    } else {
        None
    }
}

impl<'a> Step<'a> {
    /// Whether this is the instruction to run the step that `step` describes,
    /// or, where `step` is `None`, to stop with success.
    pub open spec fn runs(self, step: Option<(int, Seq<char>)>) -> bool {
        match step {
            Some((index, template)) => self matches Step::Run { index: i, template: t } && i
                == index && t@ == template,
            None => self matches Step::Stop(Ok(())),
        }
    }

    /// Whether this is the instruction to stop with the error `e`.
    pub open spec fn fails_with(self, e: CommandFailure) -> bool {
        self matches Step::Stop(Err(err)) && err@ == e
    }
}

/// Decides what `name` invokes: the user-defined command registered first
/// under it, and the built-ins only where there is none.
pub fn resolve<'a>(registry: &'a CustomTypeableCommands, name: &str) -> (r: Resolution<'a>)
    ensures
        match registry.lookup(name@) {
            Some(i) => r == Resolution::Custom(&registry.commands@[i]),
            None => r == Resolution::Builtin,
        },
{
    match registry.get(name) {
        Some(command) => Resolution::Custom(command),
        None => Resolution::Builtin,
    }
}

/// The first thing to do for `command`: run its first step, or stop at once
/// where it has none.
pub fn first_step<'a>(command: &'a CustomTypableCommand) -> (r: Step<'a>)
    ensures
        r.runs(step_at(*command, 0)),
{
    if command.commands.len() > 0 {
        Step::Run { index: 0, template: command.commands[0].as_str() }
    } else {
        Step::Stop(Ok(()))
    }
}

/// What to do once the step at `index` has ended in `result`: after a
/// failure nothing more runs and the failure is the macro-command's result;
/// after a success the next step runs, or the macro-command has succeeded.
pub fn next_step<'a>(
    command: &'a CustomTypableCommand,
    index: usize,
    result: Result<(), CommandError>,
) -> (r: Step<'a>)
    ensures
        match result {
            Err(e) => r.fails_with(e@),
            Ok(_) => r.runs(step_at(*command, index + 1)),
        },
{
    match result {
        Err(e) => Step::Stop(Err(e)),
        Ok(_) => {
            if index < command.commands.len() && index + 1 < command.commands.len() {
                Step::Run { index: index + 1, template: command.commands[index + 1].as_str() }
            } else {
                Step::Stop(Ok(()))
            }
        },
    }
}

/// The name of the command that the words of an expanded template invoke:
/// the first word, without its leading colons.
pub fn inner_command<'a>(words: &'a Vec<String>) -> (r: Option<&'a str>)
    ensures
        match r {
            Some(name) => words@.len() > 0 && name@ == strip_colons(words@[0]@),
            None => words@.len() == 0,
        },
{
    if words.len() > 0 {
        Some(without_colons(words[0].as_str()))
    } else {
        None
    }
}

} // verus!
