//! What each built-in does: `set`, `unset` and `alias` mutate the session
//! tables here; every other built-in leaves the state alone and yields the
//! text to print, the directory to change to, or the order to exit, as an
//! `Action` for the surrounding program.

use vstd::prelude::*;
use crate::executor::{Action, ActionView};
use crate::shellcommand::{BuiltinCommand, BuiltinView};
use crate::strmap::StrMap;

verus! {

/// The lines the `help` built-in prints.
pub open spec fn spec_help_lines() -> Seq<Seq<char>> {
    seq![
        "HERMIT Shell - Available Commands:"@,
        "  exit        - Exit the shell"@,
        "  cd <dir>    - Change directory"@,
        "  echo <msg>  - Print message"@,
        "  set <var> <value> - Set environment variable"@,
        "  unset <var> - Unset environment variable"@,
        "  env         - Show all environment variables"@,
        "  alias <name> <command> - Create an alias"@,
        "  help        - Show this help message"@,
        "  history     - Show command history"@,
    ]
}

/// The `name=value` lines the `env` built-in prints, one per stored pair,
/// in storage order.
pub open spec fn spec_env_lines(pairs: Seq<(String, String)>) -> Seq<Seq<char>> {
    Seq::new(pairs.len(), |i: int| pairs[i].0@ + "="@ + pairs[i].1@)
}

/// Builds the static help text.
pub fn help_lines() -> (r: Vec<String>)
    ensures
        r.deep_view() == spec_help_lines(),
{
    let mut lines: Vec<String> = Vec::new();
    lines.push(String::from_str("HERMIT Shell - Available Commands:"));
    lines.push(String::from_str("  exit        - Exit the shell"));
    lines.push(String::from_str("  cd <dir>    - Change directory"));
    lines.push(String::from_str("  echo <msg>  - Print message"));
    lines.push(String::from_str("  set <var> <value> - Set environment variable"));
    lines.push(String::from_str("  unset <var> - Unset environment variable"));
    lines.push(String::from_str("  env         - Show all environment variables"));
    lines.push(String::from_str("  alias <name> <command> - Create an alias"));
    lines.push(String::from_str("  help        - Show this help message"));
    lines.push(String::from_str("  history     - Show command history"));
    proof {
        assert(lines.deep_view() =~= spec_help_lines());
    }
    lines
}

/// Builds the `name=value` listing of a table.
pub fn env_lines(vars: &StrMap) -> (r: Vec<String>)
    ensures
        r.deep_view() == spec_env_lines(vars.pairs@),
{
    let n = vars.pairs.len();
    let mut lines: Vec<String> = Vec::new();
    let mut i: usize = 0;
    while i < n
        invariant
            n == vars.pairs@.len(),
            i <= n,
            lines.deep_view() =~= spec_env_lines(vars.pairs@).subrange(0, i as int),
        decreases n - i,
    {
        let mut line = vars.pairs[i].0.clone();
        line.append("=");
        line.append(vars.pairs[i].1.as_str());
        proof {
            assert(line@ == vars.pairs@[i as int].0@ + "="@ + vars.pairs@[i as int].1@);
        }
        let ghost prev = lines.deep_view();
        lines.push(line);
        proof {
            assert(lines.deep_view() =~= prev.push(spec_env_lines(vars.pairs@)[i as int]));
            assert(lines.deep_view() =~= spec_env_lines(vars.pairs@).subrange(0, i + 1));
        }
        i = i + 1;
    }
    proof {
        assert(spec_env_lines(vars.pairs@).subrange(0, n as int) =~= spec_env_lines(vars.pairs@));
    }
    lines
}

/// How dispatching a built-in relates the session tables before and after,
/// and which action it yields.
pub open spec fn builtin_effect(
    b: BuiltinView,
    env0: StrMap,
    env1: StrMap,
    al0: StrMap,
    al1: StrMap,
    action: ActionView,
) -> bool {
    match b {
        BuiltinView::Exit => env1 == env0 && al1 == al0 && action == ActionView::Exit,
        BuiltinView::Cd(target) => env1 == env0 && al1 == al0 && action == ActionView::Chdir(
            target,
        ),
        BuiltinView::Echo(message) => env1 == env0 && al1 == al0 && action == ActionView::Print(
            seq![message],
        ),
        BuiltinView::Help => env1 == env0 && al1 == al0 && action == ActionView::Print(
            spec_help_lines(),
        ),
        BuiltinView::History => env1 == env0 && al1 == al0 && action == ActionView::Print(
            seq!["History functionality not yet implemented"@],
        ),
        BuiltinView::SetEnv(name, value) => env1@ == env0@.insert(name, value) && al1 == al0
            && action == ActionView::Nothing,
        BuiltinView::UnsetEnv(name) => env1@ == env0@.remove(name) && al1 == al0 && action
            == ActionView::Nothing,
        BuiltinView::Alias(name, value) => al1@ == al0@.insert(name, value) && env1 == env0
            && action == ActionView::Nothing,
        BuiltinView::Env => env1 == env0 && al1 == al0 && action == ActionView::Print(
            spec_env_lines(env0.pairs@),
        ),
    }
}

/// Performs a built-in against the session tables and yields the action
/// left for the surrounding program.
pub fn run_builtin(
    command_builtin: BuiltinCommand,
    env_vars: &mut StrMap,
    aliases: &mut StrMap,
) -> (r: Action)
    requires
        old(env_vars).inv(),
        old(aliases).inv(),
    ensures
        final(env_vars).inv(),
        final(aliases).inv(),
        builtin_effect(
            command_builtin@,
            *old(env_vars),
            *final(env_vars),
            *old(aliases),
            *final(aliases),
            r@,
        ),
{
    match command_builtin {
        BuiltinCommand::Exit => Action::Exit,
        BuiltinCommand::Cd(target) => Action::Chdir(target),
        BuiltinCommand::Echo(message) => {
            let mut lines: Vec<String> = Vec::new();
            let ghost message_view = message@;
            lines.push(message);
            proof {
                assert(lines.deep_view() =~= seq![message_view]);
            }
            Action::Print(lines)
        },
        BuiltinCommand::SetEnv(name, value) => {
            env_vars.insert(name, value);
            Action::Nothing
        },
        BuiltinCommand::UnsetEnv(name) => {
            env_vars.remove(name.as_str());
            Action::Nothing
        },
        BuiltinCommand::Env() => Action::Print(env_lines(env_vars)),
        BuiltinCommand::Alias(name, value) => {
            aliases.insert(name, value);
            Action::Nothing
        },
        BuiltinCommand::Help => Action::Print(help_lines()),
        BuiltinCommand::History => {
            let mut lines: Vec<String> = Vec::new();
            lines.push(String::from_str("History functionality not yet implemented"));
            proof {
                assert(lines.deep_view() =~= seq!["History functionality not yet implemented"@]);
            }
            Action::Print(lines)
        },
    }
}

} // verus!
