use serenity::all::CreateCommand;
use vstd::prelude::*;

use super::{build_command, lemma_builds_registers, registers, command_spec, user_option, CommandSpec, UserOption};
use crate::error::{Error, Result};
use crate::family_manager::{contains_id, relationship_in, stored_id, FamilyRow};
use crate::relationships::Relationships;

verus! {

/// The verdict of the last check of `/adopt`, on the rows of the author
/// and of the target: a target who already has a parent cannot be adopted,
/// nor can one who blocks the author, nor one whom the author's row already
/// relates to the author (the answer names that relationship).
pub open spec fn rows_verdict(author_row: FamilyRow, target_row: FamilyRow, author_id: u64, target_id: u64) -> Result<()> {
    if target_row.parent_ids@.len() > 0 {
        Err(Error::AlreadyAdopted(target_id))
    } else if target_row.blocked_ids@.contains(stored_id(author_id)) {
        Err(Error::Blocked(target_id))
    } else if relationship_in(author_row, stored_id(target_id)) != Relationships::Unrelated {
        Err(Error::AlreadyRelated {
            target: target_id,
            relationship: relationship_in(author_row, stored_id(target_id)),
        })
    } else {
        Ok(())
    }
}

/// The last check of `/adopt`, case by case: a target with a parent is
/// refused as adopted; a target without one whose blocked list holds the
/// author's id at any place is refused as blocking; otherwise a target whom
/// the author's row relates is refused with that relationship; and the
/// check passes exactly when the target has no parent, blocks nowhere the
/// author, and is unrelated in the author's row.
pub proof fn lemma_rows_verdict_cases(author_row: FamilyRow, target_row: FamilyRow, author_id: u64, target_id: u64)
    ensures
        target_row.parent_ids@.len() > 0 ==> rows_verdict(author_row, target_row, author_id, target_id)
            == Err::<(), Error>(Error::AlreadyAdopted(target_id)),
        target_row.parent_ids@.len() == 0 && (exists|i: int|
            0 <= i < target_row.blocked_ids@.len() && target_row.blocked_ids@[i] == author_id as i64)
            ==> rows_verdict(author_row, target_row, author_id, target_id)
            == Err::<(), Error>(Error::Blocked(target_id)),
        target_row.parent_ids@.len() == 0
            && (forall|i: int| 0 <= i < target_row.blocked_ids@.len() ==> target_row.blocked_ids@[i] != author_id as i64)
            && relationship_in(author_row, target_id as i64) != Relationships::Unrelated
            ==> rows_verdict(author_row, target_row, author_id, target_id) == Err::<(), Error>(
            Error::AlreadyRelated { target: target_id, relationship: relationship_in(author_row, target_id as i64) },
        ),
        rows_verdict(author_row, target_row, author_id, target_id) == Ok::<(), Error>(()) <==> (
            target_row.parent_ids@.len() == 0
            && (forall|i: int| 0 <= i < target_row.blocked_ids@.len() ==> target_row.blocked_ids@[i] != author_id as i64)
            && relationship_in(author_row, target_id as i64) == Relationships::Unrelated),
{
    if exists|i: int| 0 <= i < target_row.blocked_ids@.len() && target_row.blocked_ids@[i] == author_id as i64 {
        let i = choose|i: int| 0 <= i < target_row.blocked_ids@.len() && target_row.blocked_ids@[i] == author_id as i64;
        assert(target_row.blocked_ids@.contains(stored_id(author_id)));
    }
}

/// Whoever has been adopted cannot be adopted again: once a row records a
/// parent (as an accepted adoption records it in the child's row), the last
/// check of `/adopt` refuses its user as a target with `AlreadyAdopted`.
pub proof fn lemma_adopted_cannot_be_adopted(
    child: FamilyRow,
    child_after: FamilyRow,
    parent_id: i64,
    author_row: FamilyRow,
    author_id: u64,
    target_id: u64,
)
    requires
        child_after.parent_ids@ == child.parent_ids@.push(parent_id),
    ensures
        rows_verdict(author_row, child_after, author_id, target_id) == Err::<(), Error>(Error::AlreadyAdopted(target_id)),
{
}

/// `/adopt`: asks another user to join the author's family as a child.
pub struct Adopt;

impl Adopt {
    /// First check of `/adopt`: nobody adopts themselves.
    pub fn check_target(author_id: u64, target_id: u64) -> (r: Result<()>)
        ensures
            author_id == target_id ==> r == Err::<(), Error>(Error::UserSelfAdopt),
            author_id != target_id ==> r == Ok::<(), Error>(()),
    {
        if author_id == target_id {
            return Err(Error::UserSelfAdopt);
        }
        Ok(())
    }

    /// Second check of `/adopt`, once the bot's own id is known: the bot
    /// itself cannot be adopted, nor can any other bot.
    pub fn check_adoptable(target_id: u64, target_is_bot: bool, own_id: u64) -> (r: Result<()>)
        ensures
            target_id == own_id ==> r == Err::<(), Error>(Error::Zayden),
            target_id != own_id && target_is_bot ==> r == Err::<(), Error>(Error::Bot),
            target_id != own_id && !target_is_bot ==> r == Ok::<(), Error>(()),
    {
        if target_id == own_id {
            return Err(Error::Zayden);
        }
        if target_is_bot {
            return Err(Error::Bot);
        }
        Ok(())
    }

    /// Last check of `/adopt`, once the rows of the author and of the
    /// target are known (each the stored row or a fresh one).
    pub fn check_rows(author_row: &FamilyRow, target_row: &FamilyRow, author_id: u64, target_id: u64) -> (r: Result<()>)
        ensures
            r == rows_verdict(*author_row, *target_row, author_id, target_id),
    {
        if target_row.parent_ids.len() != 0 {
            return Err(Error::AlreadyAdopted(target_id));
        }
        if contains_id(&target_row.blocked_ids, #[verifier::truncate] (author_id as i64)) {
            return Err(Error::Blocked(target_id));
        }
        let relationship = author_row.relationship(target_id);
        match relationship {
            Relationships::Unrelated => Ok(()),
            _ => Err(Error::AlreadyRelated { target: target_id, relationship }),
        }
    }

    /// What `/adopt` registers.
    pub fn command() -> (spec: CommandSpec)
        ensures
            spec.describes(
                "adopt"@,
                "Adopt another user into your family."@,
                seq![("user"@, "The user to adopt."@, true)],
                false,
            ),
    {
        let mut options: Vec<UserOption> = Vec::new();
        options.push(user_option("user", "The user to adopt.", true));
        command_spec("adopt", "Adopt another user into your family.", options, false)
    }

    /// The serenity builder of `/adopt`.
    pub fn register() -> (command: CreateCommand)
        ensures
            registers(command, "adopt"@, "Adopt another user into your family."@, seq![("user"@, "The user to adopt."@, true)], false),
    {
        let spec = Self::command();
        let command = build_command(&spec);
        proof {
            lemma_builds_registers(command, spec, "adopt"@, "Adopt another user into your family."@, seq![("user"@, "The user to adopt."@, true)], false);
        }
        command
    }
}

} // verus!
