//! One full trip through the line-processing pipeline: tokenize, trim
//! quotes, expand variables, resolve aliases, classify, dispatch. The
//! result carries the warnings to report (unbound variable names), and
//! either the action left for the surrounding program or the error that
//! stopped classification. A line with no tokens left after expansion is
//! skipped silently.

use vstd::prelude::*;
use crate::alias::{resolve_aliases, spec_resolve};
use crate::builtin::builtin_effect;
use crate::executor::{execute_command, Action, ActionView};
use crate::parser::{parse_line, spec_expanded_tokens, spec_line_warnings};
use crate::shell::ShellInstance;
use crate::shellcommand::{spec_classify, ShellCommand, ShellCommandView};

verus! {

/// What one line leaves behind: warnings to report, and either the action
/// still to perform or the error that stopped classification.
pub struct LineResult {
    /// Names of variables that were referenced but are not bound.
    pub warnings: Vec<String>,
    /// The action left for the surrounding program, or the classification
    /// error to report.
    pub outcome: Result<Action, crate::shellcommand::ShellError>,
}

/// Processes a single input line against the session state.
pub fn process_line(buffer: &str, shell_instance: &mut ShellInstance) -> (r: LineResult)
    requires
        old(shell_instance).inv(),
    ensures
        final(shell_instance).inv(),
        r.warnings.deep_view() == spec_line_warnings(buffer@, old(shell_instance).env_vars@),
        ({
            let expanded = spec_expanded_tokens(buffer@, old(shell_instance).env_vars@);
            if expanded.len() == 0 {
                &&& *final(shell_instance) == *old(shell_instance)
                &&& r.outcome matches Ok(a) && a@ == ActionView::Nothing
            } else {
                let resolved = spec_resolve(
                    expanded,
                    old(shell_instance).aliases@,
                    Set::empty(),
                    old(shell_instance).aliases.pairs@.len() as nat,
                );
                match spec_classify(resolved) {
                    Err(e) => {
                        &&& *final(shell_instance) == *old(shell_instance)
                        &&& r.outcome matches Err(err) && err@ == e
                    },
                    Ok(ShellCommandView::External) => {
                        &&& *final(shell_instance) == *old(shell_instance)
                        &&& r.outcome matches Ok(a) && a@ == ActionView::RunExternal(resolved)
                    },
                    Ok(ShellCommandView::Builtin(b)) => {
                        &&& r.outcome matches Ok(a) && builtin_effect(
                            b,
                            old(shell_instance).env_vars,
                            final(shell_instance).env_vars,
                            old(shell_instance).aliases,
                            final(shell_instance).aliases,
                            a@,
                        )
                    },
                }
            }
        }),
{
    let (mut tokens, warnings) = parse_line(buffer, &shell_instance.env_vars);

    if tokens.len() == 0 {
        return LineResult { warnings, outcome: Ok(Action::Nothing) };
    }

    resolve_aliases(&mut tokens, &shell_instance.aliases);

    match ShellCommand::from_tokens(&tokens) {
        Err(e) => LineResult { warnings, outcome: Err(e) },
        Ok(command) => {
            let action = execute_command(command, tokens, shell_instance);
            LineResult { warnings, outcome: Ok(action) }
        },
    }
}

} // verus!
