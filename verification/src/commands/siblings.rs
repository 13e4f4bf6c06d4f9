use serenity::all::CreateCommand;
use vstd::prelude::*;

use super::{build_command, lemma_builds_registers, registers, command_spec, user_option, CommandSpec, UserOption};
use crate::error::{Error, Result};
use crate::family_manager::{contains_id, stored_id, FamilyRow};

verus! {

/// `/siblings`: lists the siblings of a user: the other children of the
/// user's parents, each once.
pub struct Siblings;

/// `listed`, followed by each of `children`, in order, that is not `asker`
/// and not listed yet.
pub open spec fn add_children(listed: Seq<i64>, children: Seq<i64>, asker: i64) -> Seq<i64>
    decreases children.len(),
{
    if children.len() == 0 {
        listed
    } else {
        let before = add_children(listed, children.drop_last(), asker);
        let c = children.last();
        if c == asker || before.contains(c) {
            before
        } else {
            before.push(c)
        }
    }
}

/// The siblings of `asker` that the rows of its parents list, in the order
/// of the parents and of their children, each once.
pub open spec fn listed_siblings(parent_rows: Seq<FamilyRow>, asker: i64) -> Seq<i64>
    decreases parent_rows.len(),
{
    if parent_rows.len() == 0 {
        Seq::empty()
    } else {
        add_children(listed_siblings(parent_rows.drop_last(), asker), parent_rows.last().children_ids@, asker)
    }
}

/// Adding a parent's children keeps a list without repeats and without the
/// asker, and lists exactly what was listed and the children other than the
/// asker.
pub proof fn lemma_add_children(listed: Seq<i64>, children: Seq<i64>, asker: i64)
    requires
        listed.no_duplicates(),
        !listed.contains(asker),
    ensures
        add_children(listed, children, asker).no_duplicates(),
        forall|x: i64| #[trigger] add_children(listed, children, asker).contains(x)
            <==> (listed.contains(x) || (x != asker && children.contains(x))),
    decreases children.len(),
{
    if children.len() > 0 {
        let rest = children.drop_last();
        let c = children.last();
        lemma_add_children(listed, rest, asker);
        let before = add_children(listed, rest, asker);
        assert forall|x: i64| children.contains(x) <==> (rest.contains(x) || x == c) by {
            if children.contains(x) {
                let i = choose|i: int| 0 <= i < children.len() && children[i] == x;
                if i < children.len() - 1 {
                    assert(rest[i] == x);
                }
            }
            if rest.contains(x) {
                let i = choose|i: int| 0 <= i < rest.len() && rest[i] == x;
                assert(children[i] == x);
            }
            assert(children[children.len() - 1] == c);
        }
        if !(c == asker || before.contains(c)) {
            assert forall|x: i64| #[trigger] before.push(c).contains(x) <==> (before.contains(x) || x == c) by {
                if before.push(c).contains(x) {
                    let i = choose|i: int| 0 <= i < before.len() + 1 && before.push(c)[i] == x;
                    if i < before.len() {
                        assert(before[i] == x);
                    }
                }
                if before.contains(x) {
                    let i = choose|i: int| 0 <= i < before.len() && before[i] == x;
                    assert(before.push(c)[i] == x);
                }
                assert(before.push(c)[before.len() as int] == c);
            }
            assert(before.push(c).no_duplicates()) by {
                assert forall|i: int, j: int| 0 <= i < j < before.len() + 1 implies before.push(c)[i] != before.push(c)[j] by {
                    if j == before.len() {
                        assert(before[i] == before.push(c)[i]);
                        assert(before.contains(before[i]));
                    }
                }
            }
        }
    }
}

/// `/siblings` lists each sibling once: the list has no repeats, never
/// holds the asker, and holds exactly the children other than the asker
/// that some parent's row records.
pub proof fn lemma_listed_siblings(parent_rows: Seq<FamilyRow>, asker: i64)
    ensures
        listed_siblings(parent_rows, asker).no_duplicates(),
        forall|x: i64| #[trigger] listed_siblings(parent_rows, asker).contains(x) <==> (x != asker
            && exists|i: int| 0 <= i < parent_rows.len() && #[trigger] parent_rows[i].children_ids@.contains(x)),
    decreases parent_rows.len(),
{
    if parent_rows.len() > 0 {
        let rest = parent_rows.drop_last();
        lemma_listed_siblings(rest, asker);
        let before = listed_siblings(rest, asker);
        assert(!before.contains(asker));
        lemma_add_children(before, parent_rows.last().children_ids@, asker);
        assert forall|x: i64| #[trigger] listed_siblings(parent_rows, asker).contains(x) <==> (x != asker
            && exists|i: int| 0 <= i < parent_rows.len() && #[trigger] parent_rows[i].children_ids@.contains(x)) by {
            if before.contains(x) {
                let i = choose|i: int| 0 <= i < rest.len() && #[trigger] rest[i].children_ids@.contains(x);
                assert(parent_rows[i] == rest[i]);
            }
            if x != asker && exists|i: int| 0 <= i < parent_rows.len() && #[trigger] parent_rows[i].children_ids@.contains(x) {
                let i = choose|i: int| 0 <= i < parent_rows.len() && #[trigger] parent_rows[i].children_ids@.contains(x);
                if i < parent_rows.len() - 1 {
                    assert(rest[i] == parent_rows[i]);
                } else {
                    assert(parent_rows.last() == parent_rows[i]);
                }
            }
        }
    }
}

impl Siblings {
    /// The parents of the user asked about, whose rows are then looked up;
    /// refused where the row records none, in words that depend on whether
    /// the author asked about themselves.
    pub fn parent_ids(row: &FamilyRow, user_id: u64, author_id: u64) -> (r: Result<Vec<i64>>)
        ensures
            row.parent_ids@.len() == 0 && user_id == author_id ==> (r matches Err(Error::SelfNoParents)),
            row.parent_ids@.len() == 0 && user_id != author_id ==> (r matches Err(Error::NoParents(u)) && u == user_id),
            row.parent_ids@.len() > 0 ==> (r matches Ok(ids) && ids@ == row.parent_ids@),
    {
        if row.parent_ids.len() == 0 {
            if user_id == author_id {
                return Err(Error::SelfNoParents);
            }
            return Err(Error::NoParents(user_id));
        }
        Ok(row.parent_ids.clone())
    }

    /// One step of `/siblings`, for the parent `parent_id`, whose row was
    /// looked up as `parent_row`: the parent's children other than the asker
    /// that are not listed yet are listed, in order; where the parent has no
    /// row, `NoData` names it and nothing is listed.
    pub fn add_siblings(listed: &mut Vec<i64>, asker_id: u64, parent_id: i64, parent_row: &Option<FamilyRow>) -> (r: Result<()>)
        requires
            parent_row is None ==> parent_id != 0,
        ensures
            parent_row matches Some(row) ==> r == Ok::<(), Error>(())
                && final(listed)@ == add_children(old(listed)@, row.children_ids@, stored_id(asker_id)),
            parent_row is None ==> (r matches Err(Error::NoData(p)) && p == parent_id as u64)
                && final(listed)@ == old(listed)@,
    {
        match parent_row {
            Some(row) => {
                let asker = #[verifier::truncate] (asker_id as i64);
                let ghost start = listed@;
                let mut i: usize = 0;
                while i < row.children_ids.len()
                    invariant
                        i <= row.children_ids@.len(),
                        asker == stored_id(asker_id),
                        listed@ == add_children(start, row.children_ids@.take(i as int), asker),
                    decreases row.children_ids@.len() - i,
                {
                    let child = row.children_ids[i];
                    proof {
                        assert(row.children_ids@.take(i + 1).drop_last() == row.children_ids@.take(i as int));
                        assert(row.children_ids@.take(i + 1).last() == child);
                    }
                    if child != asker && !contains_id(listed, child) {
                        listed.push(child);
                    }
                    i = i + 1;
                }
                proof {
                    assert(row.children_ids@.take(row.children_ids@.len() as int) == row.children_ids@);
                }
                Ok(())
            },
            None => Err(Error::NoData(#[verifier::truncate] (parent_id as u64))),
        }
    }

    /// What `/siblings` registers.
    pub fn command() -> (spec: CommandSpec)
        ensures
            spec.describes(
                "siblings"@,
                "List who your siblings are."@,
                seq![("user"@, "The user to check. Leave blank to check yourself."@, false)],
                false,
            ),
    {
        let mut options: Vec<UserOption> = Vec::new();
        options.push(user_option("user", "The user to check. Leave blank to check yourself.", false));
        command_spec("siblings", "List who your siblings are.", options, false)
    }

    /// The serenity builder of `/siblings`.
    pub fn register() -> (command: CreateCommand)
        ensures
            registers(command, "siblings"@, "List who your siblings are."@, seq![("user"@, "The user to check. Leave blank to check yourself."@, false)], false),
    {
        let spec = Self::command();
        let command = build_command(&spec);
        proof {
            lemma_builds_registers(command, spec, "siblings"@, "List who your siblings are."@, seq![("user"@, "The user to check. Leave blank to check yourself."@, false)], false);
        }
        command
    }
}

} // verus!
