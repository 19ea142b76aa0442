//! Prompt support: the candidate command names the core hands to the
//! line-editing front end for tab completion — the built-ins first, then
//! the names of the indexed external executables.

use vstd::prelude::*;
use crate::path_index::builtin_names;

verus! {

/// The completion candidates: the built-in names followed by the external
/// executable names the prompt was built with.
pub struct Prompt {
    commands: Vec<String>,
}

impl Prompt {
    /// The candidate names, in order.
    pub closed spec fn spec_commands(&self) -> Seq<Seq<char>> {
        self.commands.deep_view()
    }

    /// Builds the candidate list: the built-ins, then the given external
    /// names.
    pub fn new(externals: Vec<String>) -> (r: Prompt)
        ensures
            r.spec_commands() == builtin_names() + externals.deep_view(),
    {
        let mut commands: Vec<String> = Vec::new();
        commands.push(String::from_str("echo"));
        commands.push(String::from_str("type"));
        commands.push(String::from_str("exit"));
        commands.push(String::from_str("pwd"));
        commands.push(String::from_str("cd"));
        proof {
            assert(commands.deep_view() =~= builtin_names());
        }
        let ghost before = commands.deep_view();
        let mut externals = externals;
        let ghost ext = externals.deep_view();
        commands.append(&mut externals);
        proof {
            assert(commands.deep_view() =~= before + ext);
        }
        Prompt { commands }
    }

    /// The candidate names.
    pub fn commands(&self) -> (r: &Vec<String>)
        ensures
            r.deep_view() == self.spec_commands(),
    {
        &self.commands
    }
}

} // verus!
