//! A pluggable command interface: shared context handed to every command,
//! and the trait a command implementation provides.

use vstd::prelude::*;

verus! {

/// Context shared by command implementations: the lines entered so far and
/// the names of the built-ins.
#[derive(Clone)]
pub struct CommandContext {
    pub history: Vec<String>,
    pub builtins: Vec<&'static str>,
}

/// A command that can be looked up by name and executed against the shared
/// context.
pub trait Command {
    fn execute(&self, args: &Vec<String>, context: &CommandContext) -> Result<(), String>;

    fn name(&self) -> &'static str;

    fn description(&self) -> &'static str;

    fn extended_description(&self) -> &'static str {
        self.description()
    }
}

} // verus!
