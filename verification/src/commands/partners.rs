use serenity::all::CreateCommand;
use vstd::prelude::*;

use super::{build_command, lemma_builds_registers, registers, command_spec, user_option, CommandSpec, UserOption};
use crate::error::{Error, Result};
use crate::family_manager::FamilyRow;

verus! {

/// `/partners`: lists whom a user is married to.
pub struct PartnersCommand;

/// The Discord ids that stored ids stand for: their 64 bits read unsigned.
pub open spec fn user_ids_of(ids: Seq<i64>) -> Seq<u64> {
    ids.map_values(|x: i64| x as u64)
}

impl PartnersCommand {
    /// The partners of the user asked about, to be looked up and mentioned;
    /// refused where the row records none, in words that depend on whether
    /// the author asked about themselves.
    pub fn partner_ids(row: &FamilyRow, user_id: u64, author_id: u64) -> (r: Result<Vec<u64>>)
        ensures
            row.partner_ids@.len() == 0 && user_id == author_id ==> (r matches Err(Error::SelfNoPartners)),
            row.partner_ids@.len() == 0 && user_id != author_id ==> (r matches Err(Error::NoPartners(u)) && u == user_id),
            row.partner_ids@.len() > 0 ==> (r matches Ok(ids) && ids@ == user_ids_of(row.partner_ids@)),
    {
        if row.partner_ids.len() == 0 {
            if user_id == author_id {
                return Err(Error::SelfNoPartners);
            }
            return Err(Error::NoPartners(user_id));
        }
        Ok(to_user_ids(&row.partner_ids))
    }

    /// What `/partners` registers.
    pub fn command() -> (spec: CommandSpec)
        ensures
            spec.describes(
                "partners"@,
                "List who you are married to."@,
                seq![("user"@, "The user to check. Leave blank to check yourself."@, false)],
                false,
            ),
    {
        let mut options: Vec<UserOption> = Vec::new();
        options.push(user_option("user", "The user to check. Leave blank to check yourself.", false));
        command_spec("partners", "List who you are married to.", options, false)
    }

    /// The serenity builder of `/partners`.
    pub fn register() -> (command: CreateCommand)
        ensures
            registers(command, "partners"@, "List who you are married to."@, seq![("user"@, "The user to check. Leave blank to check yourself."@, false)], false),
    {
        let spec = Self::command();
        let command = build_command(&spec);
        proof {
            lemma_builds_registers(command, spec, "partners"@, "List who you are married to."@, seq![("user"@, "The user to check. Leave blank to check yourself."@, false)], false);
        }
        command
    }
}

/// Every stored id is read back, in order: the Discord ids are as many as
/// the stored ids, and each is the stored id at the same place with its 64
/// bits read unsigned.
pub proof fn lemma_user_ids_of_each(ids: Seq<i64>)
    ensures
        user_ids_of(ids).len() == ids.len(),
        forall|i: int| 0 <= i < ids.len() ==> #[trigger] user_ids_of(ids)[i] == ids[i] as u64,
{
}

/// Reads stored ids back as Discord ids.
pub fn to_user_ids(ids: &Vec<i64>) -> (out: Vec<u64>)
    ensures
        out@ == user_ids_of(ids@),
        out@.len() == ids@.len(),
        forall|i: int| 0 <= i < ids@.len() ==> #[trigger] out@[i] == ids@[i] as u64,
{
    let mut out: Vec<u64> = Vec::new();
    let mut i: usize = 0;
    while i < ids.len()
        invariant
            i <= ids@.len(),
            out@ == user_ids_of(ids@.take(i as int)),
        decreases ids@.len() - i,
    {
        proof {
            assert(ids@.take(i + 1) == ids@.take(i as int).push(ids@[i as int]));
        }
        out.push(#[verifier::truncate] (ids[i] as u64));
        i = i + 1;
    }
    proof {
        assert(ids@.take(ids@.len() as int) == ids@);
        lemma_user_ids_of_each(ids@);
    }
    out
}

} // verus!
