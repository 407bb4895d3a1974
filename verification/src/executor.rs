//! Dispatch of a classified command against the session state. The core
//! performs the state mutations itself and describes every outward side
//! effect as an `Action` value for the surrounding program to carry out, so
//! that this stage stays free of I/O.

use vstd::prelude::*;
use crate::builtin::{builtin_effect, run_builtin};
use crate::shell::ShellInstance;
use crate::shellcommand::{ShellCommand, ShellCommandView};

verus! {

/// The outward side effect a dispatched command asks the surrounding
/// program to perform.
#[derive(Debug)]
pub enum Action {
    /// Nothing left to do: the command's whole effect was on session state.
    Nothing,
    /// Terminate the shell process with success status.
    Exit,
    /// Change the working directory to the given path; on failure report the
    /// error and leave the directory unchanged.
    Chdir(String),
    /// Write these lines to standard output, in order.
    Print(Vec<String>),
    /// Spawn the first token as an executable with the remaining tokens as
    /// arguments, standard streams inherited, and wait for it to finish.
    RunExternal(Vec<String>),
}

/// The mathematical value of an `Action`.
pub enum ActionView {
    Nothing,
    Exit,
    Chdir(Seq<char>),
    Print(Seq<Seq<char>>),
    RunExternal(Seq<Seq<char>>),
}

impl View for Action {
    type V = ActionView;

    open spec fn view(&self) -> ActionView {
        match self {
            Action::Nothing => ActionView::Nothing,
            Action::Exit => ActionView::Exit,
            Action::Chdir(target) => ActionView::Chdir(target@),
            Action::Print(lines) => ActionView::Print(lines.deep_view()),
            Action::RunExternal(tokens) => ActionView::RunExternal(tokens.deep_view()),
        }
    }
}

/// Executes a classified command: a built-in runs against the session
/// state, an external command is handed back verbatim for spawning.
pub fn execute_command(
    command: ShellCommand,
    tokens: Vec<String>,
    shell_instance: &mut ShellInstance,
) -> (r: Action)
    requires
        old(shell_instance).inv(),
    ensures
        final(shell_instance).inv(),
        match command@ {
            ShellCommandView::Builtin(b) => builtin_effect(
                b,
                old(shell_instance).env_vars,
                final(shell_instance).env_vars,
                old(shell_instance).aliases,
                final(shell_instance).aliases,
                r@,
            ),
            ShellCommandView::External => *final(shell_instance) == *old(shell_instance) && r@
                == ActionView::RunExternal(tokens.deep_view()),
        },
{
    match command {
        ShellCommand::Builtin(builtin) => run_builtin(
            builtin,
            &mut shell_instance.env_vars,
            &mut shell_instance.aliases,
        ),
        ShellCommand::External() => Action::RunExternal(tokens),
    }
}

} // verus!
