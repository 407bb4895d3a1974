//! The shell session: the process-lifetime store of environment variables
//! and aliases, threaded explicitly through every pipeline stage.

use vstd::prelude::*;
use crate::strmap::StrMap;

verus! {

/// A shell session's mutable state.
pub struct ShellInstance {
    pub env_vars: StrMap,
    pub aliases: StrMap,
}

impl ShellInstance {
    /// Both tables are well-formed.
    pub open spec fn inv(&self) -> bool {
        self.env_vars.inv() && self.aliases.inv()
    }

    /// A fresh session with no variables and no aliases. The collaborator
    /// that inspects the process environment seeds `env_vars` once at
    /// startup, through `set` operations; the core never re-reads the host
    /// environment.
    pub fn new() -> (r: ShellInstance)
        ensures
            r.inv(),
            r.env_vars@ == Map::<Seq<char>, Seq<char>>::empty(),
            r.aliases@ == Map::<Seq<char>, Seq<char>>::empty(),
            r.env_vars.pairs@.len() == 0,
            r.aliases.pairs@.len() == 0,
    {
        ShellInstance { env_vars: StrMap::new(), aliases: StrMap::new() }
    }
}

impl Default for ShellInstance {
    fn default() -> (r: ShellInstance)
        ensures
            r.inv(),
            r.env_vars@ == Map::<Seq<char>, Seq<char>>::empty(),
            r.aliases@ == Map::<Seq<char>, Seq<char>>::empty(),
    {
        ShellInstance::new()
    }
}

} // verus!
