//! The buttons under an adoption or marriage proposal: who may press them,
//! and what accepting a proposal records.

use vstd::prelude::*;

use crate::error::{Error, Result};
use crate::family_manager::{contains_id, FamilyRow};

pub mod adopt;
pub mod marry;

verus! {

/// Whether one of two rows blocks the other's user.
pub open spec fn blocks_between(a: FamilyRow, b: FamilyRow) -> bool {
    a.blocked_ids@.contains(b.id) || b.blocked_ids@.contains(a.id)
}

/// The check of an accept button once both rows are known: where either
/// user blocks the other, nothing is recorded (`Blocked` names the user who
/// pressed the button).
pub fn check_not_blocked(author_row: &FamilyRow, other_row: &FamilyRow, other_id: u64) -> (r: Result<()>)
    ensures
        blocks_between(*author_row, *other_row) ==> r == Err::<(), Error>(Error::Blocked(other_id)),
        !blocks_between(*author_row, *other_row) ==> r == Ok::<(), Error>(()),
{
    if contains_id(&author_row.blocked_ids, other_row.id) || contains_id(&other_row.blocked_ids, author_row.id) {
        return Err(Error::Blocked(other_id));
    }
    Ok(())
}

/// Whether `id` is one of `ids`.
pub fn contains_user(ids: &Vec<u64>, id: u64) -> (found: bool)
    ensures
        found == ids@.contains(id),
{
    let mut i: usize = 0;
    while i < ids.len()
        invariant
            i <= ids@.len(),
            forall|j: int| 0 <= j < i ==> ids@[j] != id,
        decreases ids@.len() - i,
    {
        if ids[i] == id {
            return true;
        }
        i = i + 1;
    }
    false
}

} // verus!
