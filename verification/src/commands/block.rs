use serenity::all::CreateCommand;
use vstd::prelude::*;

use super::{build_command, lemma_builds_registers, registers, command_spec, user_option, CommandSpec, UserOption};
use crate::error::{Error, Result};

verus! {

/// `/block`: keeps a user from adopting, marrying or otherwise relating to
/// the author.
pub struct Block;

/// `/unblock`: lifts a block that `/block` set.
pub struct Unblock;

impl Block {
    /// The check of `/block`: nobody blocks themselves. Once it passes, the
    /// author's row gets `FamilyRow::add_blocked` of the target.
    pub fn check(author_id: u64, target_id: u64) -> (r: Result<()>)
        ensures
            author_id == target_id ==> r == Err::<(), Error>(Error::UserSelfBlock),
            author_id != target_id ==> r == Ok::<(), Error>(()),
    {
        if author_id == target_id {
            return Err(Error::UserSelfBlock);
        }
        Ok(())
    }

    /// What `/block` registers.
    pub fn command() -> (spec: CommandSpec)
        ensures
            spec.describes(
                "block"@,
                "Blocks a user from being able to adopt/marry/etc you."@,
                seq![("user"@, "The user to block."@, false)],
                false,
            ),
    {
        let mut options: Vec<UserOption> = Vec::new();
        options.push(user_option("user", "The user to block.", false));
        command_spec("block", "Blocks a user from being able to adopt/marry/etc you.", options, false)
    }

    /// The serenity builder of `/block`.
    pub fn register() -> (command: CreateCommand)
        ensures
            registers(command, "block"@, "Blocks a user from being able to adopt/marry/etc you."@, seq![("user"@, "The user to block."@, false)], false),
    {
        let spec = Self::command();
        let command = build_command(&spec);
        proof {
            lemma_builds_registers(command, spec, "block"@, "Blocks a user from being able to adopt/marry/etc you."@, seq![("user"@, "The user to block."@, false)], false);
        }
        command
    }
}

impl Unblock {
    /// The check of `/unblock`: nobody unblocks themselves. Once it passes,
    /// the author's row gets `FamilyRow::remove_blocked` of the target.
    pub fn check(author_id: u64, target_id: u64) -> (r: Result<()>)
        ensures
            author_id == target_id ==> r == Err::<(), Error>(Error::UserSelfBlock),
            author_id != target_id ==> r == Ok::<(), Error>(()),
    {
        if author_id == target_id {
            return Err(Error::UserSelfBlock);
        }
        Ok(())
    }

    /// What `/unblock` registers.
    pub fn command() -> (spec: CommandSpec)
        ensures
            spec.describes(
                "unblock"@,
                "Unblocks a user from being able to adopt/marry/etc you."@,
                seq![("user"@, "The user to unblock."@, false)],
                false,
            ),
    {
        let mut options: Vec<UserOption> = Vec::new();
        options.push(user_option("user", "The user to unblock.", false));
        command_spec("unblock", "Unblocks a user from being able to adopt/marry/etc you.", options, false)
    }

    /// The serenity builder of `/unblock`.
    pub fn register() -> (command: CreateCommand)
        ensures
            registers(command, "unblock"@, "Unblocks a user from being able to adopt/marry/etc you."@, seq![("user"@, "The user to unblock."@, false)], false),
    {
        let spec = Self::command();
        let command = build_command(&spec);
        proof {
            lemma_builds_registers(command, spec, "unblock"@, "Unblocks a user from being able to adopt/marry/etc you."@, seq![("user"@, "The user to unblock."@, false)], false);
        }
        command
    }
}

} // verus!
