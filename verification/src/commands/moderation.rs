use serenity::all::CreateCommand;
use vstd::prelude::*;

use super::{build_command, lemma_builds_registers, registers, command_spec, CommandSpec, UserOption};

verus! {

/// `/resetfamily`: clears every family row; for administrators.
pub struct ResetFamily;

impl ResetFamily {
    /// What `/resetfamily` registers.
    pub fn command() -> (spec: CommandSpec)
        ensures
            spec.describes("resetfamily"@, "Resets the family tree(s) in guild"@, seq![], true),
    {
        let options: Vec<UserOption> = Vec::new();
        command_spec("resetfamily", "Resets the family tree(s) in guild", options, true)
    }

    /// The serenity builder of `/resetfamily`.
    pub fn register() -> (command: CreateCommand)
        ensures
            registers(command, "resetfamily"@, "Resets the family tree(s) in guild"@, seq![], true),
    {
        let spec = Self::command();
        let command = build_command(&spec);
        proof {
            lemma_builds_registers(command, spec, "resetfamily"@, "Resets the family tree(s) in guild"@, seq![], true);
        }
        command
    }
}

} // verus!
