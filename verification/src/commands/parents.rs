use serenity::all::CreateCommand;
use vstd::prelude::*;

use super::{build_command, lemma_builds_registers, registers, command_spec, user_option, CommandSpec, UserOption};

verus! {

/// `/parents`: registered, and answered with nothing yet.
pub struct ParentsCommand;

impl ParentsCommand {
    /// What `/parents` registers.
    pub fn command() -> (spec: CommandSpec)
        ensures
            spec.describes(
                "parents"@,
                "List who your siblings are."@,
                seq![("user"@, "The user to check. Leave blank to check yourself."@, false)],
                false,
            ),
    {
        let mut options: Vec<UserOption> = Vec::new();
        options.push(user_option("user", "The user to check. Leave blank to check yourself.", false));
        command_spec("parents", "List who your siblings are.", options, false)
    }

    /// The serenity builder of `/parents`.
    pub fn register() -> (command: CreateCommand)
        ensures
            registers(command, "parents"@, "List who your siblings are."@, seq![("user"@, "The user to check. Leave blank to check yourself."@, false)], false),
    {
        let spec = Self::command();
        let command = build_command(&spec);
        proof {
            lemma_builds_registers(command, spec, "parents"@, "List who your siblings are."@, seq![("user"@, "The user to check. Leave blank to check yourself."@, false)], false);
        }
        command
    }
}

} // verus!
