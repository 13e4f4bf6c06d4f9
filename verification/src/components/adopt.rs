use vstd::prelude::*;

use super::contains_user;
use crate::error::{Error, Result};
use crate::family_manager::{keyed_by_id, parents_match_children, relationship_in, relative_unless_stored, FamilyRow};
use crate::relationships::Relationships;

verus! {

/// The check of the accept button under an adoption proposal. `parent_id` is
/// the author of the proposal, where the message still records one;
/// `child_id` pressed the button; `mentioned` are the users that the
/// proposal mentions. The author cannot accept their own proposal (nobody
/// adopts themselves); any other user must be mentioned. The proposing
/// parent is handed back.
pub fn authorize_accept(parent_id: Option<u64>, child_id: u64, mentioned: &Vec<u64>) -> (r: Result<u64>)
    ensures
        parent_id is None ==> (r matches Err(Error::NoInteraction)),
        parent_id matches Some(p) ==> (child_id == p ==> (r matches Err(Error::UserSelfAdopt))),
        parent_id matches Some(p) ==> (child_id != p && !mentioned@.contains(child_id)
            ==> (r matches Err(Error::UnauthorisedUser))),
        parent_id matches Some(p) ==> (child_id != p && mentioned@.contains(child_id)
            ==> r == Ok::<u64, Error>(p)),
{
    let parent = match parent_id {
        Some(p) => p,
        None => return Err(Error::NoInteraction),
    };
    if child_id == parent {
        return Err(Error::UserSelfAdopt);
    }
    if !contains_user(mentioned, child_id) {
        return Err(Error::UnauthorisedUser);
    }
    Ok(parent)
}

/// What an accepted adoption records: the child among the parent's
/// children, then the parent among the child's parents.
pub fn link_rows(parent: &mut FamilyRow, child: &mut FamilyRow)
    ensures
        final(parent).children_ids@ == old(parent).children_ids@.push(old(child).id),
        final(child).parent_ids@ == old(child).parent_ids@.push(old(parent).id),
        final(parent).id == old(parent).id,
        final(parent).username == old(parent).username,
        final(parent).partner_ids == old(parent).partner_ids,
        final(parent).parent_ids == old(parent).parent_ids,
        final(parent).blocked_ids == old(parent).blocked_ids,
        final(child).id == old(child).id,
        final(child).username == old(child).username,
        final(child).partner_ids == old(child).partner_ids,
        final(child).children_ids == old(child).children_ids,
        final(child).blocked_ids == old(child).blocked_ids,
{
    parent.add_child(child);
    child.add_parent(parent);
}

/// An adoption relates both ways: after an accepted adoption (as
/// `link_rows` records it), each row relates the other; the child's row
/// relates the parent as a parent unless it records the parent as a
/// partner, and the parent's row relates the child as a child unless it
/// records the child as a partner or a parent.
pub proof fn lemma_adoption_relates_both(
    parent: FamilyRow,
    child: FamilyRow,
    parent_after: FamilyRow,
    child_after: FamilyRow,
)
    requires
        parent_after.children_ids@ == parent.children_ids@.push(child.id),
        parent_after.partner_ids == parent.partner_ids,
        parent_after.parent_ids == parent.parent_ids,
        child_after.parent_ids@ == child.parent_ids@.push(parent.id),
        child_after.partner_ids == child.partner_ids,
    ensures
        relationship_in(parent_after, child.id) != Relationships::Unrelated,
        relationship_in(child_after, parent.id) != Relationships::Unrelated,
        !parent.partner_ids@.contains(child.id) && !parent.parent_ids@.contains(child.id)
            ==> relationship_in(parent_after, child.id) == Relationships::Child,
        !child.partner_ids@.contains(parent.id)
            ==> relationship_in(child_after, parent.id) == Relationships::Parent,
{
    assert(parent_after.children_ids@[parent.children_ids@.len() as int] == child.id);
    assert(child_after.parent_ids@[child.parent_ids@.len() as int] == parent.id);
}

/// An adoption keeps the parents and children of a store in agreement.
/// Where every row of the store is kept under its id, its parents and
/// children agree, and neither of the two users is recorded as a parent or
/// child by a stored row unless that user is stored too, an accepted
/// adoption between two different users, each row the stored one or, where
/// none is stored, a fresh one without parents or children, saved back (as
/// `link_rows` leaves them) under their ids, gives a store that is kept
/// under its ids, whose parents and children agree, and in which the child
/// is the parent's child and the parent the child's parent.
pub proof fn lemma_adoption_keeps_family_consistent(
    store: Map<i64, FamilyRow>,
    parent: FamilyRow,
    child: FamilyRow,
    parent_after: FamilyRow,
    child_after: FamilyRow,
)
    requires
        keyed_by_id(store),
        parents_match_children(store),
        relative_unless_stored(store, parent.id),
        relative_unless_stored(store, child.id),
        parent.id != child.id,
        store.contains_key(parent.id) ==> store[parent.id] == parent,
        !store.contains_key(parent.id) ==> parent.parent_ids@.len() == 0 && parent.children_ids@.len() == 0,
        store.contains_key(child.id) ==> store[child.id] == child,
        !store.contains_key(child.id) ==> child.parent_ids@.len() == 0 && child.children_ids@.len() == 0,
        parent_after.id == parent.id,
        child_after.id == child.id,
        parent_after.children_ids@ == parent.children_ids@.push(child.id),
        parent_after.parent_ids == parent.parent_ids,
        child_after.parent_ids@ == child.parent_ids@.push(parent.id),
        child_after.children_ids == child.children_ids,
    ensures
        ({
            let after = store.insert(parent.id, parent_after).insert(child.id, child_after);
            &&& keyed_by_id(after)
            &&& parents_match_children(after)
            &&& after[parent.id].children_ids@.contains(child.id)
            &&& after[child.id].parent_ids@.contains(parent.id)
        }),
{
    let pa = parent.id;
    let ch = child.id;
    let after = store.insert(pa, parent_after).insert(ch, child_after);
    assert forall|z: i64| parent_after.children_ids@.contains(z) <==> (parent.children_ids@.contains(z) || z == ch) by {
        if parent.children_ids@.contains(z) {
            let i = choose|i: int| 0 <= i < parent.children_ids@.len() && parent.children_ids@[i] == z;
            assert(parent_after.children_ids@[i] == z);
        }
        if parent_after.children_ids@.contains(z) {
            let i = choose|i: int| 0 <= i < parent_after.children_ids@.len() && parent_after.children_ids@[i] == z;
            if i < parent.children_ids@.len() {
                assert(parent.children_ids@[i] == z);
            }
        }
        assert(parent_after.children_ids@[parent.children_ids@.len() as int] == ch);
    }
    assert forall|z: i64| child_after.parent_ids@.contains(z) <==> (child.parent_ids@.contains(z) || z == pa) by {
        if child.parent_ids@.contains(z) {
            let i = choose|i: int| 0 <= i < child.parent_ids@.len() && child.parent_ids@[i] == z;
            assert(child_after.parent_ids@[i] == z);
        }
        if child_after.parent_ids@.contains(z) {
            let i = choose|i: int| 0 <= i < child_after.parent_ids@.len() && child_after.parent_ids@[i] == z;
            if i < child.parent_ids@.len() {
                assert(child.parent_ids@[i] == z);
            }
        }
        assert(child_after.parent_ids@[child.parent_ids@.len() as int] == pa);
    }
    assert forall|k: i64| after.contains_key(k) implies #[trigger] after[k].id == k by {
        if k != pa && k != ch {
            assert(store.contains_key(k));
        }
    }
    assert forall|x: i64, y: i64| after.contains_key(x) && after.contains_key(y) implies
        (after[x].children_ids@.contains(y) <==> after[y].parent_ids@.contains(x)) by {
        let old_x = if x == pa { parent } else if x == ch { child } else { store[x] };
        let old_y = if y == pa { parent } else if y == ch { child } else { store[y] };
        assert(store.contains_key(x) ==> store[x] == old_x);
        assert(store.contains_key(y) ==> store[y] == old_y);
        if x == pa && y == ch {
        } else {
            // Apart from the new link, both rows record what they recorded.
            assert(after[x].children_ids@.contains(y) <==> old_x.children_ids@.contains(y));
            assert(after[y].parent_ids@.contains(x) <==> old_y.parent_ids@.contains(x));
            if store.contains_key(x) && store.contains_key(y) {
                assert(store[x].children_ids@.contains(y) <==> store[y].parent_ids@.contains(x));
            } else if !store.contains_key(x) {
                assert(old_x.children_ids@.len() == 0);
                assert(!old_x.children_ids@.contains(y));
                if store.contains_key(y) {
                    assert(x == pa || x == ch);
                    assert(relative_unless_stored(store, x));
                    assert(!store[y].children_ids@.contains(x));
                    assert(!store[y].parent_ids@.contains(x));
                } else {
                    assert(old_y.parent_ids@.len() == 0);
                }
            } else {
                assert(old_y.parent_ids@.len() == 0);
                assert(!old_y.parent_ids@.contains(x));
                assert(!store[x].children_ids@.contains(y));
            }
        }
    }
}

/// The check of the decline button under an adoption proposal: only a
/// mentioned user may press it, and where the author of the proposal presses
/// it, the proposal is cancelled.
pub fn decline(mentioned: &Vec<u64>, user_id: u64, author_id: Option<u64>) -> (r: Result<()>)
    ensures
        !mentioned@.contains(user_id) ==> (r matches Err(Error::UnauthorisedUser)),
        mentioned@.contains(user_id) && author_id is None ==> (r matches Err(Error::NoInteraction)),
        mentioned@.contains(user_id) && author_id == Some(user_id) ==> (r matches Err(Error::AdoptCancelled)),
        mentioned@.contains(user_id) && author_id is Some && author_id != Some(user_id)
            ==> r == Ok::<(), Error>(()),
{
    if !contains_user(mentioned, user_id) {
        return Err(Error::UnauthorisedUser);
    }
    let author = match author_id {
        Some(a) => a,
        None => return Err(Error::NoInteraction),
    };
    if author == user_id {
        return Err(Error::AdoptCancelled);
    }
    Ok(())
}

} // verus!
