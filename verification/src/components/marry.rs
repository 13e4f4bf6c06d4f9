use vstd::prelude::*;

use super::contains_user;
use crate::error::{Error, Result};
use crate::family_manager::{keyed_by_id, partner_unless_stored, partners_symmetric, relationship_in, FamilyRow};
use crate::relationships::Relationships;

verus! {

/// The check of the accept button under a marriage proposal. `author_id` is
/// the author of the proposal, where the message records one as the command
/// that it answers; `partner_id` pressed the button; `mentioned` are the
/// users that the proposal mentions. The author cannot accept their own
/// proposal (nobody marries themselves); any other user must be mentioned.
/// The author is handed back.
pub fn authorize_accept(author_id: Option<u64>, partner_id: u64, mentioned: &Vec<u64>) -> (r: Result<u64>)
    ensures
        author_id is None ==> (r matches Err(Error::NoInteraction)),
        author_id matches Some(a) ==> (partner_id == a ==> (r matches Err(Error::UserSelfMarry))),
        author_id matches Some(a) ==> (partner_id != a && !mentioned@.contains(partner_id)
            ==> (r matches Err(Error::UnauthorisedUser))),
        author_id matches Some(a) ==> (partner_id != a && mentioned@.contains(partner_id)
            ==> r == Ok::<u64, Error>(a)),
{
    let author = match author_id {
        Some(a) => a,
        None => return Err(Error::NoInteraction),
    };
    if partner_id == author {
        return Err(Error::UserSelfMarry);
    }
    if !contains_user(mentioned, partner_id) {
        return Err(Error::UnauthorisedUser);
    }
    Ok(author)
}

/// What an accepted marriage records: each partner among the other's
/// partners, the author's row first.
pub fn link_rows(author: &mut FamilyRow, partner: &mut FamilyRow)
    ensures
        final(author).partner_ids@ == old(author).partner_ids@.push(old(partner).id),
        final(partner).partner_ids@ == old(partner).partner_ids@.push(old(author).id),
        final(author).id == old(author).id,
        final(author).username == old(author).username,
        final(author).parent_ids == old(author).parent_ids,
        final(author).children_ids == old(author).children_ids,
        final(author).blocked_ids == old(author).blocked_ids,
        final(partner).id == old(partner).id,
        final(partner).username == old(partner).username,
        final(partner).parent_ids == old(partner).parent_ids,
        final(partner).children_ids == old(partner).children_ids,
        final(partner).blocked_ids == old(partner).blocked_ids,
{
    author.add_partner(partner);
    partner.add_partner(author);
}

/// A marriage relates both ways: after an accepted marriage (as
/// `link_rows` records it), each partner's row relates the other as a
/// partner, whatever else it records.
pub proof fn lemma_marriage_relates_partners(
    author: FamilyRow,
    partner: FamilyRow,
    author_after: FamilyRow,
    partner_after: FamilyRow,
)
    requires
        author_after.partner_ids@ == author.partner_ids@.push(partner.id),
        partner_after.partner_ids@ == partner.partner_ids@.push(author.id),
    ensures
        relationship_in(author_after, partner.id) == Relationships::Partner,
        relationship_in(partner_after, author.id) == Relationships::Partner,
{
    assert(author_after.partner_ids@[author.partner_ids@.len() as int] == partner.id);
    assert(partner_after.partner_ids@[partner.partner_ids@.len() as int] == author.id);
}

/// A marriage keeps the partners of a store in agreement. Where every row
/// of the store is kept under its id, the partners its rows record agree,
/// and neither of the two users is recorded as a partner by a stored row
/// unless that user is stored too, an accepted marriage between two
/// different users, each row the stored one or, where none is stored, a
/// fresh one without partners, saved back (as `link_rows` leaves them)
/// under their ids, gives a store that is kept under its ids, whose
/// partners agree, and in which the two are partners.
pub proof fn lemma_marriage_keeps_partners_symmetric(
    store: Map<i64, FamilyRow>,
    author: FamilyRow,
    partner: FamilyRow,
    author_after: FamilyRow,
    partner_after: FamilyRow,
)
    requires
        keyed_by_id(store),
        partners_symmetric(store),
        partner_unless_stored(store, author.id),
        partner_unless_stored(store, partner.id),
        author.id != partner.id,
        store.contains_key(author.id) ==> store[author.id] == author,
        !store.contains_key(author.id) ==> author.partner_ids@.len() == 0,
        store.contains_key(partner.id) ==> store[partner.id] == partner,
        !store.contains_key(partner.id) ==> partner.partner_ids@.len() == 0,
        author_after.id == author.id,
        partner_after.id == partner.id,
        author_after.partner_ids@ == author.partner_ids@.push(partner.id),
        partner_after.partner_ids@ == partner.partner_ids@.push(author.id),
    ensures
        ({
            let after = store.insert(author.id, author_after).insert(partner.id, partner_after);
            &&& keyed_by_id(after)
            &&& partners_symmetric(after)
            &&& relationship_in(after[author.id], partner.id) == Relationships::Partner
            &&& relationship_in(after[partner.id], author.id) == Relationships::Partner
        }),
{
    let a = author.id;
    let p = partner.id;
    let after = store.insert(a, author_after).insert(p, partner_after);
    assert forall|z: i64| author_after.partner_ids@.contains(z) <==> (author.partner_ids@.contains(z) || z == p) by {
        if author.partner_ids@.contains(z) {
            let i = choose|i: int| 0 <= i < author.partner_ids@.len() && author.partner_ids@[i] == z;
            assert(author_after.partner_ids@[i] == z);
        }
        if author_after.partner_ids@.contains(z) {
            let i = choose|i: int| 0 <= i < author_after.partner_ids@.len() && author_after.partner_ids@[i] == z;
            if i < author.partner_ids@.len() {
                assert(author.partner_ids@[i] == z);
            }
        }
        assert(author_after.partner_ids@[author.partner_ids@.len() as int] == p);
    }
    assert forall|z: i64| partner_after.partner_ids@.contains(z) <==> (partner.partner_ids@.contains(z) || z == a) by {
        if partner.partner_ids@.contains(z) {
            let i = choose|i: int| 0 <= i < partner.partner_ids@.len() && partner.partner_ids@[i] == z;
            assert(partner_after.partner_ids@[i] == z);
        }
        if partner_after.partner_ids@.contains(z) {
            let i = choose|i: int| 0 <= i < partner_after.partner_ids@.len() && partner_after.partner_ids@[i] == z;
            if i < partner.partner_ids@.len() {
                assert(partner.partner_ids@[i] == z);
            }
        }
        assert(partner_after.partner_ids@[partner.partner_ids@.len() as int] == a);
    }
    assert forall|k: i64| after.contains_key(k) implies #[trigger] after[k].id == k by {
        if k != a && k != p {
            assert(store.contains_key(k));
        }
    }
    assert forall|x: i64, y: i64| after.contains_key(x) && after.contains_key(y) implies
        (after[x].partner_ids@.contains(y) <==> after[y].partner_ids@.contains(x)) by {
        if x == y {
        } else if (x == a && y == p) || (x == p && y == a) {
        } else if x == a || x == p {
            assert(store.contains_key(y));
            assert(after[y] == store[y]);
            let old_x = if x == a { author } else { partner };
            if store.contains_key(x) {
                assert(store[x] == old_x);
                assert(store[x].partner_ids@.contains(y) <==> store[y].partner_ids@.contains(x));
            } else {
                assert(old_x.partner_ids@.len() == 0);
                assert(!old_x.partner_ids@.contains(y));
                assert(!store[y].partner_ids@.contains(x));
            }
        } else if y == a || y == p {
            assert(store.contains_key(x));
            assert(after[x] == store[x]);
            let old_y = if y == a { author } else { partner };
            if store.contains_key(y) {
                assert(store[y] == old_y);
                assert(store[x].partner_ids@.contains(y) <==> store[y].partner_ids@.contains(x));
            } else {
                assert(old_y.partner_ids@.len() == 0);
                assert(!old_y.partner_ids@.contains(x));
                assert(!store[x].partner_ids@.contains(y));
            }
        } else {
            assert(store.contains_key(x) && store.contains_key(y));
            assert(after[x] == store[x] && after[y] == store[y]);
            assert(store[x].partner_ids@.contains(y) <==> store[y].partner_ids@.contains(x));
        }
    }
}

/// The check of the decline button under a marriage proposal: only a
/// mentioned user may press it, and where the author of the proposal presses
/// it, the proposal is cancelled.
pub fn decline(mentioned: &Vec<u64>, user_id: u64, author_id: Option<u64>) -> (r: Result<()>)
    ensures
        !mentioned@.contains(user_id) ==> (r matches Err(Error::UnauthorisedUser)),
        mentioned@.contains(user_id) && author_id is None ==> (r matches Err(Error::NoInteraction)),
        mentioned@.contains(user_id) && author_id == Some(user_id) ==> (r matches Err(Error::MarryCancelled)),
        mentioned@.contains(user_id) && author_id is Some && author_id != Some(user_id)
            ==> r == Ok::<(), Error>(()),
{
    if !contains_user(mentioned, user_id) {
        return Err(Error::UnauthorisedUser);
    }
    let author = match author_id {
        Some(a) => a,
        None => return Err(Error::NoInteraction),
    };
    if author == user_id {
        return Err(Error::MarryCancelled);
    }
    Ok(())
}

} // verus!
