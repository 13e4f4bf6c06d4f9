use family::components::{adopt, check_not_blocked, contains_user, marry};
use family::{Error, FamilyRow, Relationships};

fn row(id: i64, name: &str) -> FamilyRow {
    FamilyRow::from_user(id as u64, name.to_string())
}

#[test]
fn adoption_accept_needs_proposal_and_mention() {
    assert!(matches!(adopt::authorize_accept(None, 2, &vec![2]), Err(Error::NoInteraction)));
    assert!(matches!(adopt::authorize_accept(Some(1), 3, &vec![2]), Err(Error::UnauthorisedUser)));
    assert_eq!(adopt::authorize_accept(Some(1), 2, &vec![2]).unwrap(), 1);
    assert!(matches!(adopt::authorize_accept(Some(1), 1, &vec![2]), Err(Error::UserSelfAdopt)));
    assert!(matches!(adopt::authorize_accept(Some(1), 1, &vec![1]), Err(Error::UserSelfAdopt)));
}

#[test]
fn adoption_links_both_rows() {
    let mut parent = row(1, "p");
    let mut child = row(2, "c");
    adopt::link_rows(&mut parent, &mut child);
    assert_eq!(parent.children_ids, vec![2]);
    assert_eq!(child.parent_ids, vec![1]);
    assert_eq!(parent.relationship(2), Relationships::Child);
    assert_eq!(child.relationship(1), Relationships::Parent);
}

#[test]
fn adopted_child_cannot_be_adopted_again() {
    let mut parent = row(1, "p");
    let mut child = row(2, "c");
    adopt::link_rows(&mut parent, &mut child);
    let other = row(5, "o");
    assert!(matches!(
        family::commands::Adopt::check_rows(&other, &child, 5, 2),
        Err(Error::AlreadyAdopted(2))
    ));
}

#[test]
fn blocks_stop_accepting() {
    let author = row(1, "a");
    let mut other = row(2, "b");
    assert!(check_not_blocked(&author, &other, 2).is_ok());
    other.add_blocked(1);
    assert!(matches!(check_not_blocked(&author, &other, 2), Err(Error::Blocked(2))));
    let mut author = row(1, "a");
    author.add_blocked(2);
    assert!(matches!(check_not_blocked(&author, &row(2, "b"), 2), Err(Error::Blocked(2))));
}

#[test]
fn adoption_decline() {
    assert!(matches!(adopt::decline(&vec![2], 3, Some(1)), Err(Error::UnauthorisedUser)));
    assert!(matches!(adopt::decline(&vec![2], 2, None), Err(Error::NoInteraction)));
    assert!(matches!(adopt::decline(&vec![2], 2, Some(2)), Err(Error::AdoptCancelled)));
    assert!(adopt::decline(&vec![2], 2, Some(1)).is_ok());
}

#[test]
fn marriage_accept_needs_proposal_and_mention() {
    assert!(matches!(marry::authorize_accept(None, 2, &vec![2]), Err(Error::NoInteraction)));
    assert!(matches!(marry::authorize_accept(Some(1), 3, &vec![]), Err(Error::UnauthorisedUser)));
    assert_eq!(marry::authorize_accept(Some(1), 2, &vec![2]).unwrap(), 1);
    assert!(matches!(marry::authorize_accept(Some(1), 1, &vec![1, 2]), Err(Error::UserSelfMarry)));
}

#[test]
fn marriage_links_both_rows() {
    let mut author = row(1, "a");
    let mut partner = row(2, "b");
    author.children_ids.push(2);
    marry::link_rows(&mut author, &mut partner);
    assert_eq!(author.partner_ids, vec![2]);
    assert_eq!(partner.partner_ids, vec![1]);
    assert_eq!(author.relationship(2), Relationships::Partner);
    assert_eq!(partner.relationship(1), Relationships::Partner);
}

#[test]
fn marriage_decline() {
    assert!(matches!(marry::decline(&vec![], 2, Some(1)), Err(Error::UnauthorisedUser)));
    assert!(matches!(marry::decline(&vec![2], 2, None), Err(Error::NoInteraction)));
    assert!(matches!(marry::decline(&vec![2], 2, Some(2)), Err(Error::MarryCancelled)));
    assert!(marry::decline(&vec![2, 3], 3, Some(2)).is_ok());
}

#[test]
fn contains_user_finds_members() {
    assert!(contains_user(&vec![5, 6], 6));
    assert!(!contains_user(&vec![5, 6], 7));
}

fn partners_agree(store: &std::collections::HashMap<i64, FamilyRow>) -> bool {
    store.values().all(|x| {
        x.partner_ids.iter().all(|y| store.get(y).map_or(false, |r| r.partner_ids.contains(&x.id)))
    })
}

fn parents_agree(store: &std::collections::HashMap<i64, FamilyRow>) -> bool {
    store.values().all(|x| {
        x.children_ids.iter().all(|y| store.get(y).map_or(false, |r| r.parent_ids.contains(&x.id)))
            && x.parent_ids.iter().all(|y| store.get(y).map_or(false, |r| r.children_ids.contains(&x.id)))
    })
}

#[test]
fn marriages_keep_stored_partners_in_agreement() {
    let mut store = std::collections::HashMap::new();
    for (a, p) in [(1i64, 2i64), (3, 1), (4, 5)] {
        let mut author = FamilyRow::stored_or_new(store.get(&a).cloned(), a as u64, "a".to_string());
        let mut partner = FamilyRow::stored_or_new(store.get(&p).cloned(), p as u64, "p".to_string());
        marry::link_rows(&mut author, &mut partner);
        store.insert(a, author);
        store.insert(p, partner);
        assert!(partners_agree(&store));
    }
    assert_eq!(store[&1].partner_ids, vec![2, 3]);
}

#[test]
fn adoptions_keep_stored_families_in_agreement() {
    let mut store = std::collections::HashMap::new();
    for (p, c) in [(1i64, 2i64), (1, 3), (2, 4)] {
        let mut parent = FamilyRow::stored_or_new(store.get(&p).cloned(), p as u64, "p".to_string());
        let mut child = FamilyRow::stored_or_new(store.get(&c).cloned(), c as u64, "c".to_string());
        adopt::link_rows(&mut parent, &mut child);
        store.insert(p, parent);
        store.insert(c, child);
        assert!(parents_agree(&store));
    }
    assert_eq!(store[&1].children_ids, vec![2, 3]);
    assert_eq!(store[&4].parent_ids, vec![2]);
}
