use std::collections::HashMap;

use family::commands::tree::{tree_links, tree_nodes, TreeNode};
use family::FamilyRow;

fn row(id: i64, name: &str) -> FamilyRow {
    FamilyRow::from_user(id as u64, name.to_string())
}

#[test]
fn empty_tree_has_no_nodes() {
    let tree: HashMap<i32, Vec<FamilyRow>> = HashMap::new();
    assert!(tree_nodes(&tree).is_empty());
}

#[test]
fn generations_are_sorted_and_centred() {
    let mut grandparent = row(1, "g");
    grandparent.children_ids.push(2);
    let mut parent = row(2, "p");
    parent.children_ids.push(4);
    parent.children_ids.push(5);
    parent.partner_ids.push(3);
    let partner = row(3, "q");
    let mut tree: HashMap<i32, Vec<FamilyRow>> = HashMap::new();
    tree.insert(1, vec![parent.clone(), partner.clone()]);
    tree.insert(2, vec![row(4, "c1"), row(5, "c2"), row(6, "c3")]);
    tree.insert(-1, vec![grandparent.clone()]);

    let nodes = tree_nodes(&tree);
    let placed: Vec<(i64, String, u128, i32)> =
        nodes.iter().map(|n| (n.id, n.name.clone(), n.x_halves, n.depth)).collect();
    assert_eq!(
        placed,
        vec![
            (1, "g".to_string(), 2, -1),
            (2, "p".to_string(), 1, 1),
            (3, "q".to_string(), 3, 1),
            (4, "c1".to_string(), 0, 2),
            (5, "c2".to_string(), 2, 2),
            (6, "c3".to_string(), 4, 2),
        ]
    );
    assert_eq!(nodes[1].links, vec![4, 5, 3]);
    assert_eq!(nodes[0].links, vec![2]);
    assert!(nodes.iter().all(|n| n.category == 0));

    let lines = tree_links(&nodes);
    assert_eq!(lines, vec![(1, 2), (2, 4), (2, 5), (2, 3)]);
}

#[test]
fn nodes_gain_links_in_order() {
    let node = TreeNode::new(1, "n".to_string(), 0, 0).add_link(7).add_link(8);
    assert_eq!(node.links, vec![7, 8]);
    assert_eq!(node.x_halves, 0);
    assert_eq!(node.depth, 0);
}
