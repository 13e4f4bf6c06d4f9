use vstd::prelude::*;

use crate::relationships::Relationships;

verus! {

/// What the family commands store about one user: who the user's partners,
/// parents and children are, and whom the user has blocked.
#[derive(Debug, Clone, PartialEq)]
pub struct FamilyRow {
    pub id: i64,
    pub username: String,
    pub partner_ids: Vec<i64>,
    pub parent_ids: Vec<i64>,
    pub children_ids: Vec<i64>,
    pub blocked_ids: Vec<i64>,
}

impl Default for FamilyRow {
    /// The empty row: id 0, no name, no relatives, nobody blocked.
    fn default() -> (row: FamilyRow)
        ensures
            row.id == 0,
            row.username@ == Seq::<char>::empty(),
            row.partner_ids@ == Seq::<i64>::empty(),
            row.parent_ids@ == Seq::<i64>::empty(),
            row.children_ids@ == Seq::<i64>::empty(),
            row.blocked_ids@ == Seq::<i64>::empty(),
    {
        FamilyRow {
            id: 0,
            username: String::new(),
            partner_ids: Vec::new(),
            parent_ids: Vec::new(),
            children_ids: Vec::new(),
            blocked_ids: Vec::new(),
        }
    }
}

/// Whether every row of a store is kept under its own id.
pub open spec fn keyed_by_id(store: Map<i64, FamilyRow>) -> bool {
    forall|k: i64| store.contains_key(k) ==> #[trigger] store[k].id == k
}

/// Whether the partners recorded in a store agree: of any two stored
/// rows, each records the other as a partner exactly when the other does.
pub open spec fn partners_symmetric(store: Map<i64, FamilyRow>) -> bool {
    forall|x: i64, y: i64|
        #![trigger store[x].partner_ids@.contains(y), store[y].partner_ids@.contains(x)]
        store.contains_key(x) && store.contains_key(y) ==> (store[x].partner_ids@.contains(y)
            <==> store[y].partner_ids@.contains(x))
}

/// Whether a user is stored, or no stored row records the user as a
/// partner.
pub open spec fn partner_unless_stored(store: Map<i64, FamilyRow>, id: i64) -> bool {
    store.contains_key(id) || forall|x: i64| store.contains_key(x) ==> !(#[trigger] store[x].partner_ids@.contains(id))
}

/// Whether the parents and children recorded in a store agree: of any two
/// stored rows, each records the other as a child exactly when the other
/// records it as a parent.
pub open spec fn parents_match_children(store: Map<i64, FamilyRow>) -> bool {
    forall|x: i64, y: i64|
        #![trigger store[x].children_ids@.contains(y), store[y].parent_ids@.contains(x)]
        store.contains_key(x) && store.contains_key(y) ==> (store[x].children_ids@.contains(y)
            <==> store[y].parent_ids@.contains(x))
}

/// Whether a user is stored, or no stored row records the user as a parent
/// or a child.
pub open spec fn relative_unless_stored(store: Map<i64, FamilyRow>, id: i64) -> bool {
    store.contains_key(id) || forall|x: i64| store.contains_key(x) ==> {
        &&& !(#[trigger] store[x].children_ids@.contains(id))
        &&& !store[x].parent_ids@.contains(id)
    }
}

/// The id under which a Discord user id is stored: its 64 bits read as a
/// signed number.
pub open spec fn stored_id(user_id: u64) -> i64 {
    user_id as i64
}

/// The relationship that a row records with a user, partners first, then
/// parents, then children.
pub open spec fn relationship_in(row: FamilyRow, id: i64) -> Relationships {
    if row.partner_ids@.contains(id) {
        Relationships::Partner
    } else if row.parent_ids@.contains(id) {
        Relationships::Parent
    } else if row.children_ids@.contains(id) {
        Relationships::Child
    } else {
        Relationships::Unrelated
    }
}

/// The ids of `ids` other than `id`, in their order.
pub open spec fn without_id(ids: Seq<i64>, id: i64) -> Seq<i64> {
    ids.filter(other_than(id))
}

/// The test that keeps every id but `id`.
pub open spec fn other_than(id: i64) -> spec_fn(i64) -> bool {
    |x: i64| x != id
}

impl FamilyRow {
    /// The row of a user that has none stored yet: the user's id and name,
    /// and no relatives.
    pub fn from_user(user_id: u64, username: String) -> (row: FamilyRow)
        ensures
            row.id == stored_id(user_id),
            row.username@ == username@,
            row.partner_ids@ == Seq::<i64>::empty(),
            row.parent_ids@ == Seq::<i64>::empty(),
            row.children_ids@ == Seq::<i64>::empty(),
            row.blocked_ids@ == Seq::<i64>::empty(),
    {
        FamilyRow {
            id: #[verifier::truncate] (user_id as i64),
            username,
            partner_ids: Vec::new(),
            parent_ids: Vec::new(),
            children_ids: Vec::new(),
            blocked_ids: Vec::new(),
        }
    }

    /// The stored row where there is one, else the fresh row of the user.
    pub fn stored_or_new(stored: Option<FamilyRow>, user_id: u64, username: String) -> (row: FamilyRow)
        ensures
            stored matches Some(r) ==> row == r,
            stored is None ==> {
                &&& row.id == stored_id(user_id)
                &&& row.username@ == username@
                &&& row.partner_ids@.len() == 0
                &&& row.parent_ids@.len() == 0
                &&& row.children_ids@.len() == 0
                &&& row.blocked_ids@.len() == 0
            },
    {
        match stored {
            Some(r) => r,
            None => FamilyRow::from_user(user_id, username),
        }
    }

    /// Records that this user blocks `user_id`.
    pub fn add_blocked(&mut self, user_id: u64)
        ensures
            final(self).blocked_ids@ == old(self).blocked_ids@.push(stored_id(user_id)),
            final(self).id == old(self).id,
            final(self).username == old(self).username,
            final(self).partner_ids == old(self).partner_ids,
            final(self).parent_ids == old(self).parent_ids,
            final(self).children_ids == old(self).children_ids,
    {
        self.blocked_ids.push(#[verifier::truncate] (user_id as i64));
    }

    /// Removes every record that this user blocks `user_id`.
    pub fn remove_blocked(&mut self, user_id: u64)
        ensures
            final(self).blocked_ids@ == without_id(old(self).blocked_ids@, stored_id(user_id)),
            !final(self).blocked_ids@.contains(stored_id(user_id)),
            forall|x: i64| x != stored_id(user_id) ==> (#[trigger] final(self).blocked_ids@.contains(x)
                <==> old(self).blocked_ids@.contains(x)),
            final(self).id == old(self).id,
            final(self).username == old(self).username,
            final(self).partner_ids == old(self).partner_ids,
            final(self).parent_ids == old(self).parent_ids,
            final(self).children_ids == old(self).children_ids,
    {
        let id = #[verifier::truncate] (user_id as i64);
        let ghost before = self.blocked_ids@;
        let mut kept: Vec<i64> = Vec::new();
        let mut i: usize = 0;
        while i < self.blocked_ids.len()
            invariant
                self.blocked_ids@ == before,
                i <= before.len(),
                id == stored_id(user_id),
                kept@ == without_id(before.take(i as int), id),
            decreases before.len() - i,
        {
            let x = self.blocked_ids[i];
            proof {
                assert(before.take(i + 1) == before.take(i as int).push(x));
                before.take(i as int).lemma_filter_push(x, other_than(id));
            }
            if x != id {
                kept.push(x);
            }
            i = i + 1;
        }
        proof {
            assert(before.take(before.len() as int) == before);
            assert forall|x: i64| x != id implies (#[trigger] kept@.contains(x) <==> before.contains(x)) by {
                lemma_unblock_removes_only_the_id(before, x, id);
            }
            lemma_unblock_removes_only_the_id(before, id, id);
        }
        self.blocked_ids = kept;
    }

    /// Records `child` as a child of this user.
    pub fn add_child(&mut self, child: &FamilyRow)
        ensures
            final(self).children_ids@ == old(self).children_ids@.push(child.id),
            final(self).id == old(self).id,
            final(self).username == old(self).username,
            final(self).partner_ids == old(self).partner_ids,
            final(self).parent_ids == old(self).parent_ids,
            final(self).blocked_ids == old(self).blocked_ids,
    {
        self.children_ids.push(child.id);
    }

    /// Records `partner` as a partner of this user.
    pub fn add_partner(&mut self, partner: &FamilyRow)
        ensures
            final(self).partner_ids@ == old(self).partner_ids@.push(partner.id),
            final(self).id == old(self).id,
            final(self).username == old(self).username,
            final(self).parent_ids == old(self).parent_ids,
            final(self).children_ids == old(self).children_ids,
            final(self).blocked_ids == old(self).blocked_ids,
    {
        self.partner_ids.push(partner.id);
    }

    /// Records `parent` as a parent of this user.
    pub fn add_parent(&mut self, parent: &FamilyRow)
        ensures
            final(self).parent_ids@ == old(self).parent_ids@.push(parent.id),
            final(self).id == old(self).id,
            final(self).username == old(self).username,
            final(self).partner_ids == old(self).partner_ids,
            final(self).children_ids == old(self).children_ids,
            final(self).blocked_ids == old(self).blocked_ids,
    {
        self.parent_ids.push(parent.id);
    }

    /// How `user_id` stands to this user, according to this row.
    pub fn relationship(&self, user_id: u64) -> (r: Relationships)
        ensures
            r == relationship_in(*self, stored_id(user_id)),
    {
        let id = #[verifier::truncate] (user_id as i64);
        if contains_id(&self.partner_ids, id) {
            Relationships::Partner
        } else if contains_id(&self.parent_ids, id) {
            Relationships::Parent
        } else if contains_id(&self.children_ids, id) {
            Relationships::Child
        } else {
            Relationships::Unrelated
        }
    }
}

/// How a row relates a user: as a partner wherever the partners hold the
/// id (at any place); as a parent wherever the parents hold it and the
/// partners do not; as a child wherever the children hold it (at any place)
/// and neither other list does; and as unrelated exactly when none of the
/// three lists holds it.
pub proof fn lemma_relationship_cases(row: FamilyRow, id: i64)
    ensures
        (exists|i: int| 0 <= i < row.partner_ids@.len() && row.partner_ids@[i] == id)
            ==> relationship_in(row, id) == Relationships::Partner,
        !row.partner_ids@.contains(id) && (exists|i: int| 0 <= i < row.parent_ids@.len() && row.parent_ids@[i] == id)
            ==> relationship_in(row, id) == Relationships::Parent,
        !row.partner_ids@.contains(id) && !row.parent_ids@.contains(id)
            && (exists|i: int| 0 <= i < row.children_ids@.len() && row.children_ids@[i] == id)
            ==> relationship_in(row, id) == Relationships::Child,
        relationship_in(row, id) == Relationships::Unrelated <==> (forall|i: int|
            0 <= i < row.partner_ids@.len() ==> row.partner_ids@[i] != id) && (forall|i: int|
            0 <= i < row.parent_ids@.len() ==> row.parent_ids@[i] != id) && (forall|i: int|
            0 <= i < row.children_ids@.len() ==> row.children_ids@[i] != id),
{
    if exists|i: int| 0 <= i < row.partner_ids@.len() && row.partner_ids@[i] == id {
        let i = choose|i: int| 0 <= i < row.partner_ids@.len() && row.partner_ids@[i] == id;
        assert(row.partner_ids@.contains(id));
    }
    if exists|i: int| 0 <= i < row.parent_ids@.len() && row.parent_ids@[i] == id {
        let i = choose|i: int| 0 <= i < row.parent_ids@.len() && row.parent_ids@[i] == id;
        assert(row.parent_ids@.contains(id));
    }
    if exists|i: int| 0 <= i < row.children_ids@.len() && row.children_ids@[i] == id {
        let i = choose|i: int| 0 <= i < row.children_ids@.len() && row.children_ids@[i] == id;
        assert(row.children_ids@.contains(id));
    }
}

/// Unblocking takes out every occurrence of the id and nothing else, in
/// order: nothing is left of an empty list; taking the id out of a list
/// with one more entry at its end gives what taking it out of the shorter
/// list gives, followed by that entry unless it is the id; and any other id
/// is in the result exactly when it was in the list.
pub proof fn lemma_unblock_removes_only_the_id(ids: Seq<i64>, x: i64, id: i64)
    ensures
        without_id(Seq::<i64>::empty(), id) == Seq::<i64>::empty(),
        x == id ==> without_id(ids.push(x), id) == without_id(ids, id),
        x != id ==> without_id(ids.push(x), id) == without_id(ids, id).push(x),
        !without_id(ids, id).contains(id),
        x != id ==> (without_id(ids, id).contains(x) <==> ids.contains(x)),
        without_id(ids, id).len() <= ids.len(),
    decreases ids.len(),
{
    let empty = Seq::<i64>::empty();
    assert(empty.filter(other_than(id)).len() <= 0) by {
        empty.lemma_filter_len(other_than(id));
    }
    assert(without_id(empty, id) =~= empty);
    ids.lemma_filter_push(x, other_than(id));
    ids.lemma_filter_len(other_than(id));
    if without_id(ids, id).contains(id) {
        let k = choose|k: int| 0 <= k < without_id(ids, id).len() && without_id(ids, id)[k] == id;
        ids.lemma_filter_pred(other_than(id), k);
    }
    if ids.len() > 0 {
        let rest = ids.drop_last();
        let last = ids.last();
        lemma_unblock_removes_only_the_id(rest, x, id);
        rest.lemma_filter_push(last, other_than(id));
        assert(ids == rest.push(last));
        if x != id {
            assert(without_id(rest, id).contains(x) <==> rest.contains(x));
            let w = without_id(rest, id);
            assert(ids.contains(x) <==> (rest.contains(x) || last == x)) by {
                if ids.contains(x) {
                    let k = choose|k: int| 0 <= k < ids.len() && ids[k] == x;
                    if k < ids.len() - 1 {
                        assert(rest[k] == x);
                    }
                }
                if rest.contains(x) {
                    let k = choose|k: int| 0 <= k < rest.len() && rest[k] == x;
                    assert(ids[k] == x);
                }
            }
            if last != id {
                assert(w.push(last).contains(x) <==> (w.contains(x) || last == x)) by {
                    if w.push(last).contains(x) {
                        let k = choose|k: int| 0 <= k < w.len() + 1 && w.push(last)[k] == x;
                        if k < w.len() {
                            assert(w[k] == x);
                        }
                    }
                    if w.contains(x) {
                        let k = choose|k: int| 0 <= k < w.len() && w[k] == x;
                        assert(w.push(last)[k] == x);
                    }
                    assert(w.push(last)[w.len() as int] == last);
                }
            }
        }
    } else {
        assert(ids =~= empty);
        if x != id {
            assert(!ids.contains(x));
        }
    }
}

/// Taking `id` out of a list that does not hold it leaves the list as it is.
pub proof fn lemma_without_absent_id(ids: Seq<i64>, id: i64)
    requires
        !ids.contains(id),
    ensures
        without_id(ids, id) == ids,
    decreases ids.len(),
{
    if ids.len() > 0 {
        let rest = ids.drop_last();
        assert(!rest.contains(id)) by {
            if rest.contains(id) {
                let k = choose|k: int| 0 <= k < rest.len() && rest[k] == id;
                assert(ids[k] == id);
            }
        }
        lemma_without_absent_id(rest, id);
        assert(ids == rest.push(ids.last()));
        rest.lemma_filter_push(ids.last(), other_than(id));
    }
}

/// Unblocking undoes blocking: blocking `id` and then unblocking it leaves
/// the blocked ids that unblocking alone would leave, none of which is
/// `id`; and where `id` was not blocked before, it leaves the list as it was.
pub proof fn lemma_unblock_undoes_block(blocked: Seq<i64>, id: i64)
    ensures
        without_id(blocked.push(id), id) == without_id(blocked, id),
        !without_id(blocked, id).contains(id),
        !blocked.contains(id) ==> without_id(blocked.push(id), id) == blocked,
{
    blocked.lemma_filter_push(id, other_than(id));
    if without_id(blocked, id).contains(id) {
        let k = choose|k: int| 0 <= k < without_id(blocked, id).len() && without_id(blocked, id)[k] == id;
        blocked.lemma_filter_pred(other_than(id), k);
    }
    if !blocked.contains(id) {
        lemma_without_absent_id(blocked, id);
    }
}

/// Blocking and unblocking leave relationships alone: a row whose
/// partners, parents and children are unchanged (as `add_blocked` and
/// `remove_blocked` leave them) relates every user as before.
pub proof fn lemma_blocks_keep_relationships(before: FamilyRow, after: FamilyRow, id: i64)
    requires
        after.partner_ids == before.partner_ids,
        after.parent_ids == before.parent_ids,
        after.children_ids == before.children_ids,
    ensures
        relationship_in(after, id) == relationship_in(before, id),
{
}

/// Whether `id` is one of `ids`.
pub fn contains_id(ids: &Vec<i64>, id: i64) -> (found: bool)
    ensures
        found == ids@.contains(id),
{
    let mut i: usize = 0;
    while i < ids.len()
        invariant
            i <= ids@.len(),
            forall|j: int| 0 <= j < i ==> ids@[j] != id,
        decreases ids@.len() - i,
    {
        if ids[i] == id {
            return true;
        }
        i = i + 1;
    }
    false
}

} // verus!
