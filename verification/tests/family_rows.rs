use family::family_manager::contains_id;
use family::{FamilyRow, Relationships};

fn row(id: i64, name: &str) -> FamilyRow {
    FamilyRow::from_user(id as u64, name.to_string())
}

#[test]
fn relationship_names() {
    assert_eq!(Relationships::Partner.to_string(), "Partner");
    assert_eq!(Relationships::Parent.to_string(), "Parent");
    assert_eq!(Relationships::Child.to_string(), "Child");
    assert_eq!(Relationships::Unrelated.to_string(), "None");
}

#[test]
fn fresh_row_has_no_relatives() {
    let r = FamilyRow::from_user(42, "alice".to_string());
    assert_eq!(r.id, 42);
    assert_eq!(r.username, "alice");
    assert!(r.partner_ids.is_empty());
    assert!(r.parent_ids.is_empty());
    assert!(r.children_ids.is_empty());
    assert!(r.blocked_ids.is_empty());
}

#[test]
fn large_user_ids_are_stored_as_signed() {
    let r = FamilyRow::from_user(u64::MAX, "max".to_string());
    assert_eq!(r.id, -1);
}

#[test]
fn stored_row_wins_over_fresh_row() {
    let mut stored = row(7, "stored");
    stored.partner_ids.push(9);
    let kept = FamilyRow::stored_or_new(Some(stored.clone()), 7, "other".to_string());
    assert_eq!(kept, stored);
    let fresh = FamilyRow::stored_or_new(None, 8, "fresh".to_string());
    assert_eq!(fresh, row(8, "fresh"));
}

#[test]
fn adding_relatives_appends_ids() {
    let mut a = row(1, "a");
    let b = row(2, "b");
    let c = row(3, "c");
    a.add_partner(&b);
    a.add_child(&c);
    a.add_parent(&b);
    a.add_child(&b);
    assert_eq!(a.partner_ids, vec![2]);
    assert_eq!(a.children_ids, vec![3, 2]);
    assert_eq!(a.parent_ids, vec![2]);
    assert!(a.blocked_ids.is_empty());
}

#[test]
fn relationship_prefers_partner_then_parent_then_child() {
    let mut a = row(1, "a");
    a.children_ids.push(5);
    assert_eq!(a.relationship(5), Relationships::Child);
    a.parent_ids.push(5);
    assert_eq!(a.relationship(5), Relationships::Parent);
    a.partner_ids.push(5);
    assert_eq!(a.relationship(5), Relationships::Partner);
    assert_eq!(a.relationship(6), Relationships::Unrelated);
}

#[test]
fn blocking_and_unblocking() {
    let mut a = row(1, "a");
    a.add_blocked(4);
    a.add_blocked(5);
    a.add_blocked(4);
    assert_eq!(a.blocked_ids, vec![4, 5, 4]);
    a.remove_blocked(4);
    assert_eq!(a.blocked_ids, vec![5]);
    a.remove_blocked(9);
    assert_eq!(a.blocked_ids, vec![5]);
}

#[test]
fn unblock_undoes_block() {
    let mut a = row(1, "a");
    a.add_blocked(8);
    a.add_blocked(3);
    let before = a.blocked_ids.clone();
    a.add_blocked(11);
    a.remove_blocked(11);
    assert_eq!(a.blocked_ids, before);
}

#[test]
fn contains_id_finds_members() {
    assert!(contains_id(&vec![1, 2, 3], 2));
    assert!(!contains_id(&vec![1, 2, 3], 4));
    assert!(!contains_id(&vec![], 4));
}

#[test]
fn blocking_keeps_relationships() {
    let mut a = row(1, "a");
    a.partner_ids.push(2);
    a.children_ids.push(3);
    a.add_blocked(2);
    a.add_blocked(3);
    assert_eq!(a.relationship(2), Relationships::Partner);
    assert_eq!(a.relationship(3), Relationships::Child);
    a.remove_blocked(2);
    assert_eq!(a.relationship(2), Relationships::Partner);
}

#[test]
fn default_row_is_empty() {
    let r = FamilyRow::default();
    assert_eq!(r.id, 0);
    assert_eq!(r.username, "");
    assert!(r.partner_ids.is_empty());
    assert!(r.parent_ids.is_empty());
    assert!(r.children_ids.is_empty());
    assert!(r.blocked_ids.is_empty());
}
