use family::commands::partners::to_user_ids;
use family::commands::{
    Adopt, Block, ParentsCommand, PartnersCommand, Relationship, RelationshipCommand, ResetFamily,
    Siblings, Unblock,
};
use family::{Error, FamilyRow, Relationships};

fn row(id: i64, name: &str) -> FamilyRow {
    FamilyRow::from_user(id as u64, name.to_string())
}

#[test]
fn adopt_refuses_self() {
    assert!(matches!(Adopt::check_target(5, 5), Err(Error::UserSelfAdopt)));
    assert!(Adopt::check_target(5, 6).is_ok());
}

#[test]
fn adopt_refuses_bots() {
    assert!(matches!(Adopt::check_adoptable(7, false, 7), Err(Error::Zayden)));
    assert!(matches!(Adopt::check_adoptable(7, true, 7), Err(Error::Zayden)));
    assert!(matches!(Adopt::check_adoptable(8, true, 7), Err(Error::Bot)));
    assert!(Adopt::check_adoptable(8, false, 7).is_ok());
}

#[test]
fn adopt_refuses_adopted_targets() {
    let author = row(1, "a");
    let mut target = row(2, "t");
    assert!(Adopt::check_rows(&author, &target, 1, 2).is_ok());
    target.parent_ids.push(3);
    assert!(matches!(Adopt::check_rows(&author, &target, 1, 2), Err(Error::AlreadyAdopted(2))));
}

#[test]
fn adopt_ignores_the_authors_own_parents() {
    let mut author = row(1, "a");
    author.parent_ids.push(9);
    let target = row(2, "t");
    assert!(Adopt::check_rows(&author, &target, 1, 2).is_ok());
}

#[test]
fn adopt_refuses_targets_that_block_the_author() {
    let author = row(1, "a");
    let mut target = row(2, "t");
    target.add_blocked(1);
    assert!(matches!(Adopt::check_rows(&author, &target, 1, 2), Err(Error::Blocked(2))));
}

#[test]
fn adopt_names_the_existing_relationship() {
    let mut author = row(1, "a");
    let target = row(2, "t");
    author.partner_ids.push(2);
    match Adopt::check_rows(&author, &target, 1, 2) {
        Err(Error::AlreadyRelated { target, relationship }) => {
            assert_eq!(target, 2);
            assert_eq!(relationship, Relationships::Partner);
        }
        _ => panic!("expected AlreadyRelated"),
    }
    let mut author = row(1, "a");
    author.children_ids.push(2);
    assert!(matches!(
        Adopt::check_rows(&author, &target, 1, 2),
        Err(Error::AlreadyRelated { relationship: Relationships::Child, .. })
    ));
}

#[test]
fn block_and_unblock_refuse_self() {
    assert!(matches!(Block::check(3, 3), Err(Error::UserSelfBlock)));
    assert!(Block::check(3, 4).is_ok());
    assert!(matches!(Unblock::check(3, 3), Err(Error::UserSelfBlock)));
    assert!(Unblock::check(3, 4).is_ok());
}

#[test]
fn relationship_refuses_same_user() {
    assert!(matches!(Relationship::check(9, 9), Err(Error::SameUser(9))));
    assert!(Relationship::check(9, 10).is_ok());
    assert!(matches!(RelationshipCommand::check(9, 9), Err(Error::SameUser(9))));
    assert!(RelationshipCommand::check(9, 10).is_ok());
}

#[test]
fn relationship_answers_from_first_users_row() {
    let mut user = row(1, "u");
    user.partner_ids.push(2);
    let response = Relationship::response(&user, 1, 2);
    assert_eq!(response.user_id, 1);
    assert_eq!(response.other_id, 2);
    assert_eq!(response.relationship, Relationships::Partner);
    assert_eq!(RelationshipCommand::answer(&user, 3), Relationships::Unrelated);
}

#[test]
fn partners_are_listed_or_refused() {
    let mut user = row(1, "u");
    assert!(matches!(PartnersCommand::partner_ids(&user, 1, 1), Err(Error::SelfNoPartners)));
    assert!(matches!(PartnersCommand::partner_ids(&user, 1, 2), Err(Error::NoPartners(1))));
    user.partner_ids.push(4);
    user.partner_ids.push(-1);
    assert_eq!(PartnersCommand::partner_ids(&user, 1, 2).unwrap(), vec![4, u64::MAX]);
}

#[test]
fn stored_ids_read_back_unsigned() {
    assert_eq!(to_user_ids(&vec![1, -2]), vec![1, u64::MAX - 1]);
}

#[test]
fn siblings_need_parents() {
    let mut user = row(1, "u");
    assert!(matches!(Siblings::parent_ids(&user, 1, 1), Err(Error::SelfNoParents)));
    assert!(matches!(Siblings::parent_ids(&user, 1, 2), Err(Error::NoParents(1))));
    user.parent_ids.push(10);
    user.parent_ids.push(11);
    assert_eq!(Siblings::parent_ids(&user, 1, 2).unwrap(), vec![10, 11]);
}

#[test]
fn siblings_are_every_other_child_once() {
    let mut mother = row(10, "m");
    mother.children_ids.extend([2, 3, 2]);
    let mut father = row(11, "f");
    father.children_ids.extend([3, 4, 2]);
    let mut listed: Vec<i64> = Vec::new();
    Siblings::add_siblings(&mut listed, 2, 10, &Some(mother)).unwrap();
    assert_eq!(listed, vec![3]);
    Siblings::add_siblings(&mut listed, 2, 11, &Some(father)).unwrap();
    assert_eq!(listed, vec![3, 4]);
}

#[test]
fn only_child_has_no_siblings() {
    let mut parent = row(10, "p");
    parent.children_ids.push(2);
    let mut listed: Vec<i64> = Vec::new();
    Siblings::add_siblings(&mut listed, 2, 10, &Some(parent)).unwrap();
    assert!(listed.is_empty());
}

#[test]
fn missing_parent_row_gives_no_data() {
    let mut listed: Vec<i64> = vec![5];
    assert!(matches!(Siblings::add_siblings(&mut listed, 2, 12, &None), Err(Error::NoData(12))));
    assert_eq!(listed, vec![5]);
}

#[test]
fn command_specs() {
    let adopt = Adopt::command();
    assert_eq!(adopt.name, "adopt");
    assert_eq!(adopt.description, "Adopt another user into your family.");
    assert_eq!(adopt.options.len(), 1);
    assert_eq!(adopt.options[0].name, "user");
    assert!(adopt.options[0].required);
    assert!(!adopt.admin_only);

    let relationship = Relationship::command();
    assert_eq!(relationship.options.len(), 2);
    assert_eq!(relationship.options[1].name, "other");
    assert!(!relationship.options[1].required);

    let reset = ResetFamily::command();
    assert_eq!(reset.name, "resetfamily");
    assert!(reset.options.is_empty());
    assert!(reset.admin_only);

    assert_eq!(ParentsCommand::command().description, "List who your siblings are.");
    assert_eq!(Block::command().options[0].description, "The user to block.");
    assert_eq!(Unblock::command().name, "unblock");
    assert_eq!(PartnersCommand::command().name, "partners");
    assert_eq!(Siblings::command().name, "siblings");
    assert_eq!(RelationshipCommand::command().name, "relationship");
    assert_eq!(family::commands::tree::command().name, "tree");
}

#[test]
fn registered_commands_serialise_their_specs() {
    let json = serde_json_like(&format!("{:?}", Adopt::register()));
    assert!(json.contains("\"adopt\""));
    assert!(json.contains("Adopt another user into your family."));
    assert!(json.contains("required: true"));
    let reset = format!("{:?}", ResetFamily::register());
    assert!(reset.contains("resetfamily"));
    assert!(reset.contains("default_member_permissions: Some("));
    let block = format!("{:?}", Block::register());
    assert!(block.contains("The user to block."));
    assert!(block.contains("required: false"));
    let _ = Unblock::register();
    let _ = Relationship::register();
    let _ = RelationshipCommand::register();
    let _ = PartnersCommand::register();
    let _ = Siblings::register();
    let _ = ParentsCommand::register();
    let _ = family::commands::tree::register();
}

fn serde_json_like(s: &str) -> String {
    s.to_string()
}
