use serenity::all::CreateCommand;
use vstd::prelude::*;

use super::{build_command, lemma_builds_registers, registers, command_spec, user_option, CommandSpec, UserOption};
use crate::error::{Error, Result};
use crate::family_manager::{relationship_in, stored_id, FamilyRow};
use crate::relationships::Relationships;

verus! {

/// `/relationship`: shows how two users are related, as a relationship.
pub struct RelationshipCommand;

impl RelationshipCommand {
    /// The check of `/relationship`: a user is not compared with themselves.
    pub fn check(user_id: u64, other_id: u64) -> (r: Result<()>)
        ensures
            user_id == other_id ==> r == Err::<(), Error>(Error::SameUser(user_id)),
            user_id != other_id ==> r == Ok::<(), Error>(()),
    {
        if user_id == other_id {
            return Err(Error::SameUser(user_id));
        }
        Ok(())
    }

    /// The answer, read from the row of the first user.
    pub fn answer(user_row: &FamilyRow, other_id: u64) -> (r: Relationships)
        ensures
            r == relationship_in(*user_row, stored_id(other_id)),
    {
        user_row.relationship(other_id)
    }

    /// What `/relationship` registers.
    pub fn command() -> (spec: CommandSpec)
        ensures
            spec.describes(
                "relationship"@,
                "View the relationship between two users."@,
                seq![
                    ("user"@, "The user you want to view the relationship of."@, true),
                    ("other"@, "The other user you want to view the relationship of."@, false),
                ],
                false,
            ),
    {
        let mut options: Vec<UserOption> = Vec::new();
        options.push(user_option("user", "The user you want to view the relationship of.", true));
        options.push(user_option("other", "The other user you want to view the relationship of.", false));
        command_spec("relationship", "View the relationship between two users.", options, false)
    }

    /// The serenity builder of `/relationship`.
    pub fn register() -> (command: CreateCommand)
        ensures
            registers(command, "relationship"@, "View the relationship between two users."@, seq![("user"@, "The user you want to view the relationship of."@, true), ("other"@, "The other user you want to view the relationship of."@, false)], false),
    {
        let spec = Self::command();
        let command = build_command(&spec);
        proof {
            lemma_builds_registers(command, spec, "relationship"@, "View the relationship between two users."@, seq![("user"@, "The user you want to view the relationship of."@, true), ("other"@, "The other user you want to view the relationship of."@, false)], false);
        }
        command
    }
}

} // verus!
