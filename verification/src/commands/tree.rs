use serenity::all::CreateCommand;
use std::collections::HashMap;
use vstd::std_specs::iter::{IteratorSpec, VerusForLoopWrapper};
use vstd::prelude::*;

use super::{build_command, lemma_builds_registers, registers, command_spec, user_option, CommandSpec, UserOption};
use crate::family_manager::FamilyRow;

verus! {

broadcast use vstd::std_specs::hash::group_hash_axioms;

/// A person in the picture of a family tree: who it is, where it stands and
/// whom it is linked to (its children, then its partners).
pub struct TreeNode {
    pub id: i64,
    pub name: String,
    /// Distance from the left edge, in half steps.
    pub x_halves: u128,
    /// The generation that the person belongs to, as the tree numbers it.
    pub depth: i32,
    pub category: u64,
    pub links: Vec<i64>,
}

/// A tree node as plain values.
pub struct TreeNodeView {
    pub id: i64,
    pub name: Seq<char>,
    pub x_halves: nat,
    pub depth: i32,
    pub category: u64,
    pub links: Seq<i64>,
}

impl View for TreeNode {
    type V = TreeNodeView;

    open spec fn view(&self) -> TreeNodeView {
        TreeNodeView {
            id: self.id,
            name: self.name@,
            x_halves: self.x_halves as nat,
            depth: self.depth,
            category: self.category,
            links: self.links@,
        }
    }
}

impl TreeNode {
    /// A node with no links yet.
    pub fn new(id: i64, name: String, x_halves: u128, depth: i32) -> (node: TreeNode)
        ensures
            node@ == (TreeNodeView {
                id,
                name: name@,
                x_halves: x_halves as nat,
                depth,
                category: 0,
                links: Seq::empty(),
            }),
    {
        TreeNode { id, name, x_halves, depth, category: 0, links: Vec::new() }
    }

    /// The node with one more link, to `id`.
    pub fn add_link(self, id: i64) -> (node: TreeNode)
        ensures
            node@ == (TreeNodeView { links: self@.links.push(id), ..self@ }),
    {
        let mut node = self;
        node.links.push(id);
        node
    }
}

/// The views of a sequence of nodes.
pub open spec fn views(nodes: Seq<TreeNode>) -> Seq<TreeNodeView> {
    nodes.map_values(|n: TreeNode| n@)
}

/// Whether each depth of `s` is smaller than the next.
pub open spec fn strictly_increasing(s: Seq<i32>) -> bool {
    forall|i: int, j: int| 0 <= i < j < s.len() ==> s[i] < s[j]
}

/// Whether `s` lists the depths of `d`, each once, smallest first.
pub open spec fn enumerates(s: Seq<i32>, d: Set<i32>) -> bool {
    &&& strictly_increasing(s)
    &&& forall|x: i32| s.contains(x) <==> d.contains(x)
}

/// The depths of `d`, smallest first.
pub open spec fn sorted_depths(d: Set<i32>) -> Seq<i32> {
    choose|s: Seq<i32>| enumerates(s, d)
}

/// The number of people in the widest of the generations `ks`.
pub open spec fn widest(ks: Seq<i32>, tree: Map<i32, Vec<FamilyRow>>) -> nat
    decreases ks.len(),
{
    if ks.len() == 0 {
        0
    } else {
        let rest = widest(ks.drop_last(), tree);
        let w = tree[ks.last()]@.len();
        if rest < w { w } else { rest }
    }
}

/// The node of a person at `x_halves`, in generation `depth`.
pub open spec fn node_of(row: FamilyRow, x_halves: nat, depth: i32) -> TreeNodeView {
    TreeNodeView {
        id: row.id,
        name: row.username@,
        x_halves,
        depth,
        category: 0,
        links: row.children_ids@ + row.partner_ids@,
    }
}

/// The nodes of one generation, one step apart, centred in a picture as
/// wide as `max_width` people.
pub open spec fn level_nodes(rows: Seq<FamilyRow>, depth: i32, max_width: nat) -> Seq<TreeNodeView> {
    Seq::new(
        rows.len(),
        |i: int| node_of(rows[i], ((max_width - rows.len()) + 2 * i) as nat, depth),
    )
}

/// The nodes of the generations `ks`, in this order.
pub open spec fn layout(ks: Seq<i32>, tree: Map<i32, Vec<FamilyRow>>, max_width: nat) -> Seq<TreeNodeView>
    decreases ks.len(),
{
    if ks.len() == 0 {
        Seq::empty()
    } else {
        layout(ks.drop_last(), tree, max_width) + level_nodes(tree[ks.last()]@, ks.last(), max_width)
    }
}

/// The picture of a family tree: its generations from the smallest depth up,
/// each centred in the width of the widest.
pub open spec fn tree_layout(tree: Map<i32, Vec<FamilyRow>>) -> Seq<TreeNodeView> {
    let ks = sorted_depths(tree.dom());
    layout(ks, tree, widest(ks, tree))
}

/// The lines of a picture: one from each node to each of its links.
pub open spec fn links_of(nodes: Seq<TreeNodeView>) -> Seq<(i64, i64)>
    decreases nodes.len(),
{
    if nodes.len() == 0 {
        Seq::empty()
    } else {
        let last = nodes.last();
        links_of(nodes.drop_last()) + last.links.map_values(|l: i64| (last.id, l))
    }
}

/// The number of links of all the nodes.
pub open spec fn link_total(nodes: Seq<TreeNodeView>) -> nat
    decreases nodes.len(),
{
    if nodes.len() == 0 {
        0
    } else {
        link_total(nodes.drop_last()) + nodes.last().links.len()
    }
}

/// The links of the nodes before the i-th, and the i-th's own, are among
/// all the links.
pub proof fn lemma_link_total_prefix(nodes: Seq<TreeNodeView>, i: int)
    requires
        0 <= i < nodes.len(),
    ensures
        link_total(nodes.take(i)) + nodes[i].links.len() <= link_total(nodes),
    decreases nodes.len(),
{
    let rest = nodes.drop_last();
    if i == nodes.len() - 1 {
        assert(nodes.take(i) == rest);
    } else {
        lemma_link_total_prefix(rest, i);
        assert(rest.take(i) == nodes.take(i));
        assert(rest[i] == nodes[i]);
    }
}

/// A picture has a line for every link of every node, in order and nothing
/// else: as many lines as links, and the j-th link of the i-th node is the
/// line from that node's id to the link, placed after the lines of the
/// nodes before it.
pub proof fn lemma_links_of_each(nodes: Seq<TreeNodeView>)
    ensures
        links_of(nodes).len() == link_total(nodes),
        forall|i: int, j: int| 0 <= i < nodes.len() && 0 <= j < nodes[i].links.len()
            ==> #[trigger] links_of(nodes)[link_total(nodes.take(i)) + j] == (nodes[i].id, #[trigger] nodes[i].links[j]),
    decreases nodes.len(),
{
    if nodes.len() > 0 {
        let rest = nodes.drop_last();
        let last = nodes.last();
        lemma_links_of_each(rest);
        let mine = last.links.map_values(|l: i64| (last.id, l));
        assert forall|i: int, j: int| 0 <= i < nodes.len() && 0 <= j < nodes[i].links.len()
            implies #[trigger] links_of(nodes)[link_total(nodes.take(i)) + j] == (nodes[i].id, #[trigger] nodes[i].links[j]) by {
            if i < nodes.len() - 1 {
                assert(rest.take(i) == nodes.take(i));
                assert(rest[i] == nodes[i]);
                lemma_link_total_prefix(rest, i);
                assert(links_of(rest)[link_total(rest.take(i)) + j] == (rest[i].id, rest[i].links[j]));
            } else {
                assert(nodes.take(i) == rest);
                assert(mine[j] == (last.id, last.links[j]));
            }
        }
    }
}

/// Two lists of depths, each smallest first and without repeats, that hold
/// the same depths are the same list.
pub proof fn lemma_sorted_depths_unique(a: Seq<i32>, b: Seq<i32>)
    requires
        strictly_increasing(a),
        strictly_increasing(b),
        forall|x: i32| a.contains(x) <==> b.contains(x),
    ensures
        a == b,
    decreases a.len(),
{
    if a.len() == 0 {
        if b.len() > 0 {
            assert(b.contains(b[0]));
        }
        assert(a =~= b);
    } else {
        assert(a.contains(a[0]));
        assert(b.contains(a[0]));
        assert(b.len() > 0);
        assert(b.contains(b[0]));
        assert(a.contains(b[0]));
        let i = choose|i: int| 0 <= i < a.len() && a[i] == b[0];
        let j = choose|j: int| 0 <= j < b.len() && b[j] == a[0];
        assert(a[0] <= a[i]);
        assert(b[0] <= b[j]);
        assert(a[0] == b[0]);
        let ta = a.drop_first();
        let tb = b.drop_first();
        assert forall|x: i32| ta.contains(x) <==> tb.contains(x) by {
            if ta.contains(x) {
                let k = choose|k: int| 0 <= k < ta.len() && ta[k] == x;
                assert(a[k + 1] == x);
                assert(a.contains(x));
                let m = choose|m: int| 0 <= m < b.len() && b[m] == x;
                assert(m != 0);
                assert(tb[m - 1] == x);
            }
            if tb.contains(x) {
                let k = choose|k: int| 0 <= k < tb.len() && tb[k] == x;
                assert(b[k + 1] == x);
                assert(b.contains(x));
                let m = choose|m: int| 0 <= m < a.len() && a[m] == x;
                assert(m != 0);
                assert(ta[m - 1] == x);
            }
        }
        lemma_sorted_depths_unique(ta, tb);
        assert forall|i: int| 0 <= i < a.len() implies a[i] == b[i] by {
            if i > 0 {
                assert(a[i] == ta[i - 1]);
                assert(b[i] == tb[i - 1]);
            }
        }
        assert(a =~= b);
    }
}

/// The depths of a tree, smallest first.
fn sorted_keys(tree: &HashMap<i32, Vec<FamilyRow>>) -> (keys: Vec<i32>)
    ensures
        keys@ == sorted_depths(tree@.dom()),
        enumerates(keys@, tree@.dom()),
{
    let mut keys: Vec<i32> = Vec::new();
    let mut it = VerusForLoopWrapper::new(tree.keys(), Ghost(None));
    let ghost all: Seq<i32> = it.seq().unref();
    proof {
        assert(all.to_set() == tree@.dom());
        assert(all.no_duplicates());
        assert(all.len() == tree@.dom().len());
    }
    loop
        invariant
            it.wf(),
            it.seq().unref() == all,
            all.to_set() == tree@.dom(),
            all.len() == tree@.dom().len(),
            all.no_duplicates(),
            strictly_increasing(keys@),
            forall|x: i32| keys@.contains(x) <==> all.take(it.index()).contains(x),
        ensures
            strictly_increasing(keys@),
            forall|x: i32| keys@.contains(x) <==> all.contains(x),
        decreases tree@.dom().len() - it.index(),
    {
        let ghost idx = it.index();
        match it.next() {
            Some(k) => {
                let key = *k;
                assert(key == all[idx]);
                assert(!keys@.contains(key));
                let mut p: usize = 0;
                while p < keys.len() && keys[p] < key
                    invariant
                        p <= keys@.len(),
                        forall|q: int| 0 <= q < p ==> keys@[q] < key,
                    decreases keys@.len() - p,
                {
                    p = p + 1;
                }
                let ghost before = keys@;
                keys.insert(p, key);
                proof {
                    assert(all.take(idx + 1) == all.take(idx).push(key));
                    let seen = all.take(idx);
                    assert(all.take(idx + 1) == seen.push(key));
                    assert forall|x: i32| keys@.contains(x) <==> seen.push(key).contains(x) by {
                        if keys@.contains(x) {
                            let q = choose|q: int| 0 <= q < keys@.len() && keys@[q] == x;
                            if q < p {
                                assert(before[q] == x);
                                assert(before.contains(x));
                                assert(seen.contains(x));
                                let r = choose|r: int| 0 <= r < seen.len() && seen[r] == x;
                                assert(seen.push(key)[r] == x);
                            } else if q > p {
                                assert(before[q - 1] == x);
                                assert(before.contains(x));
                                assert(seen.contains(x));
                                let r = choose|r: int| 0 <= r < seen.len() && seen[r] == x;
                                assert(seen.push(key)[r] == x);
                            } else {
                                assert(seen.push(key)[seen.len() as int] == x);
                            }
                        }
                        if seen.push(key).contains(x) {
                            let r = choose|r: int| 0 <= r < seen.len() + 1 && seen.push(key)[r] == x;
                            if r < seen.len() {
                                assert(seen[r] == x);
                                assert(seen.contains(x));
                                assert(before.contains(x));
                                let q = choose|q: int| 0 <= q < before.len() && before[q] == x;
                                if q < p {
                                    assert(keys@[q] == x);
                                } else {
                                    assert(keys@[q + 1] == x);
                                }
                            } else {
                                assert(keys@[p as int] == x);
                            }
                        }
                    }
                }
            },
            None => {
                proof {
                    assert(all.take(all.len() as int) == all);
                }
                break;
            },
        }
    }
    proof {
        assert forall|x: i32| keys@.contains(x) <==> tree@.dom().contains(x) by {
            if all.contains(x) {
                assert(all.to_set().contains(x));
            }
        }
        assert(enumerates(keys@, tree@.dom()));
        let chosen = sorted_depths(tree@.dom());
        assert(enumerates(chosen, tree@.dom()));
        lemma_sorted_depths_unique(keys@, chosen);
    }
    keys
}

/// The number of people in the widest generation of the tree.
fn widest_level(tree: &HashMap<i32, Vec<FamilyRow>>, keys: &Vec<i32>) -> (w: usize)
    requires
        forall|i: int| 0 <= i < keys@.len() ==> tree@.contains_key(#[trigger] keys@[i]),
    ensures
        w as nat == widest(keys@, tree@),
{
    let mut w: usize = 0;
    let mut j: usize = 0;
    while j < keys.len()
        invariant
            j <= keys@.len(),
            forall|i: int| 0 <= i < keys@.len() ==> tree@.contains_key(#[trigger] keys@[i]),
            w as nat == widest(keys@.take(j as int), tree@),
        decreases keys@.len() - j,
    {
        let k = keys[j];
        assert(tree@.contains_key(keys@[j as int]));
        proof {
            assert(keys@.take(j + 1).drop_last() == keys@.take(j as int));
        }
        match tree.get(&k) {
            Some(rows) => {
                if w < rows.len() {
                    w = rows.len();
                }
            },
            None => {},
        }
        j = j + 1;
    }
    proof {
        assert(keys@.take(keys@.len() as int) == keys@);
    }
    w
}

/// No generation among `ks` is wider than the widest.
pub proof fn lemma_widest_bounds(ks: Seq<i32>, tree: Map<i32, Vec<FamilyRow>>)
    ensures
        forall|i: int| 0 <= i < ks.len() ==> tree[#[trigger] ks[i]]@.len() <= widest(ks, tree),
    decreases ks.len(),
{
    if ks.len() > 0 {
        lemma_widest_bounds(ks.drop_last(), tree);
        assert forall|i: int| 0 <= i < ks.len() implies tree[#[trigger] ks[i]]@.len() <= widest(ks, tree) by {
            if i < ks.len() - 1 {
                assert(ks.drop_last()[i] == ks[i]);
            }
        }
    }
}

/// Every generation is centred on the same line: in a picture as wide as
/// `max_width` people, neighbours stand two half steps apart, every node
/// lies within the picture, and the i-th node from the left and the i-th
/// from the right of a generation lie symmetrically about the half step
/// `max_width - 1`.
pub proof fn lemma_levels_centred(rows: Seq<FamilyRow>, depth: i32, max_width: nat)
    requires
        rows.len() <= max_width,
    ensures
        forall|i: int| 0 <= i < rows.len() ==>
            #[trigger] level_nodes(rows, depth, max_width)[i].x_halves
                + level_nodes(rows, depth, max_width)[rows.len() - 1 - i].x_halves == 2 * max_width - 2,
        forall|i: int| 0 <= i < rows.len() - 1 ==>
            #[trigger] level_nodes(rows, depth, max_width)[i + 1].x_halves
                == level_nodes(rows, depth, max_width)[i].x_halves + 2,
        forall|i: int| 0 <= i < rows.len() ==>
            #[trigger] level_nodes(rows, depth, max_width)[i].x_halves <= 2 * max_width - 2,
{
}

/// The number of people in the generations `ks`.
pub open spec fn people(ks: Seq<i32>, tree: Map<i32, Vec<FamilyRow>>) -> nat
    decreases ks.len(),
{
    if ks.len() == 0 {
        0
    } else {
        people(ks.drop_last(), tree) + tree[ks.last()]@.len()
    }
}

/// Every node of the generations `ks` belongs to one of them, and there is
/// one node per person.
pub proof fn lemma_layout_members(ks: Seq<i32>, tree: Map<i32, Vec<FamilyRow>>, max_width: nat)
    ensures
        layout(ks, tree, max_width).len() == people(ks, tree),
        forall|i: int| 0 <= i < layout(ks, tree, max_width).len()
            ==> ks.contains(#[trigger] layout(ks, tree, max_width)[i].depth),
    decreases ks.len(),
{
    if ks.len() > 0 {
        let rest = ks.drop_last();
        lemma_layout_members(rest, tree, max_width);
        let before = layout(rest, tree, max_width);
        let level = level_nodes(tree[ks.last()]@, ks.last(), max_width);
        assert forall|i: int| 0 <= i < layout(ks, tree, max_width).len()
            implies ks.contains(#[trigger] layout(ks, tree, max_width)[i].depth) by {
            if i < before.len() {
                let d = before[i].depth;
                assert(rest.contains(d));
                let k = choose|k: int| 0 <= k < rest.len() && rest[k] == d;
                assert(ks[k] == d);
            } else {
                assert(layout(ks, tree, max_width)[i] == level[i - before.len()]);
                assert(ks[ks.len() - 1] == ks.last());
            }
        }
    }
}

/// The generations of a picture come in the order of their depths: no node
/// stands in a deeper generation than a node after it.
pub proof fn lemma_layout_ordered(ks: Seq<i32>, tree: Map<i32, Vec<FamilyRow>>, max_width: nat)
    requires
        strictly_increasing(ks),
    ensures
        forall|i: int, j: int| 0 <= i < j < layout(ks, tree, max_width).len()
            ==> #[trigger] layout(ks, tree, max_width)[i].depth <= #[trigger] layout(ks, tree, max_width)[j].depth,
    decreases ks.len(),
{
    if ks.len() > 0 {
        let rest = ks.drop_last();
        lemma_layout_ordered(rest, tree, max_width);
        lemma_layout_members(rest, tree, max_width);
        let before = layout(rest, tree, max_width);
        let level = level_nodes(tree[ks.last()]@, ks.last(), max_width);
        let all = layout(ks, tree, max_width);
        assert forall|i: int, j: int| 0 <= i < j < all.len() implies #[trigger] all[i].depth <= #[trigger] all[j].depth by {
            if j < before.len() {
                assert(all[i] == before[i]);
                assert(all[j] == before[j]);
            } else if i < before.len() {
                assert(all[i] == before[i]);
                assert(all[j] == level[j - before.len()]);
                assert(rest.contains(before[i].depth));
                let k = choose|k: int| 0 <= k < rest.len() && rest[k] == before[i].depth;
                assert(ks[k] == rest[k]);
                assert(ks[k] < ks[ks.len() - 1]);
            } else {
                assert(all[i] == level[i - before.len()]);
                assert(all[j] == level[j - before.len()]);
            }
        }
    }
}

/// The picture of a tree lists its generations in order of depth, one node
/// per person, each generation centred in the width of the widest.
pub proof fn lemma_tree_layout(tree: Map<i32, Vec<FamilyRow>>, ks: Seq<i32>)
    requires
        enumerates(ks, tree.dom()),
    ensures
        tree_layout(tree) == layout(ks, tree, widest(ks, tree)),
        tree_layout(tree).len() == people(ks, tree),
        forall|i: int, j: int| 0 <= i < j < tree_layout(tree).len()
            ==> #[trigger] tree_layout(tree)[i].depth <= #[trigger] tree_layout(tree)[j].depth,
        forall|i: int| 0 <= i < ks.len() ==> tree[#[trigger] ks[i]]@.len() <= widest(ks, tree),
{
    let chosen = sorted_depths(tree.dom());
    assert(enumerates(chosen, tree.dom()));
    lemma_sorted_depths_unique(ks, chosen);
    lemma_layout_members(ks, tree, widest(ks, tree));
    lemma_layout_ordered(ks, tree, widest(ks, tree));
    lemma_widest_bounds(ks, tree);
}

/// The node of `row`, linked to its children and then its partners.
fn node_for(row: &FamilyRow, x_halves: u128, depth: i32) -> (node: TreeNode)
    ensures
        node@ == node_of(*row, x_halves as nat, depth),
{
    let mut node = TreeNode::new(row.id, row.username.clone(), x_halves, depth);
    proof {
        assert(row.children_ids@.take(0) =~= Seq::<i64>::empty());
    }
    let mut c: usize = 0;
    while c < row.children_ids.len()
        invariant
            c <= row.children_ids@.len(),
            node@ == (TreeNodeView { links: row.children_ids@.take(c as int), ..node_of(*row, x_halves as nat, depth) }),
        decreases row.children_ids@.len() - c,
    {
        proof {
            assert(row.children_ids@.take(c + 1) == row.children_ids@.take(c as int).push(row.children_ids@[c as int]));
        }
        node = node.add_link(row.children_ids[c]);
        c = c + 1;
    }
    proof {
        assert(row.children_ids@.take(c as int) == row.children_ids@);
        assert(row.partner_ids@.take(0) =~= Seq::<i64>::empty());
        assert(row.children_ids@ + Seq::<i64>::empty() =~= row.children_ids@);
    }
    let mut q: usize = 0;
    while q < row.partner_ids.len()
        invariant
            q <= row.partner_ids@.len(),
            node@ == (TreeNodeView {
                links: row.children_ids@ + row.partner_ids@.take(q as int),
                ..node_of(*row, x_halves as nat, depth)
            }),
        decreases row.partner_ids@.len() - q,
    {
        proof {
            assert(row.partner_ids@.take(q + 1) == row.partner_ids@.take(q as int).push(row.partner_ids@[q as int]));
            assert(row.children_ids@ + row.partner_ids@.take(q + 1)
                == (row.children_ids@ + row.partner_ids@.take(q as int)).push(row.partner_ids@[q as int]));
        }
        node = node.add_link(row.partner_ids[q]);
        q = q + 1;
    }
    proof {
        assert(row.partner_ids@.take(q as int) == row.partner_ids@);
    }
    node
}

/// The picture of a family tree, generation by generation from the smallest
/// depth up; each generation is centred in the width of the widest.
pub fn tree_nodes(tree: &HashMap<i32, Vec<FamilyRow>>) -> (nodes: Vec<TreeNode>)
    ensures
        views(nodes@) == tree_layout(tree@),
{
    let keys = sorted_keys(tree);
    proof {
        assert forall|i: int| 0 <= i < keys@.len() implies tree@.contains_key(#[trigger] keys@[i]) by {
            assert(keys@.contains(keys@[i]));
        }
        lemma_widest_bounds(keys@, tree@);
    }
    let max_width = widest_level(tree, &keys);
    let mut nodes: Vec<TreeNode> = Vec::new();
    let mut j: usize = 0;
    while j < keys.len()
        invariant
            j <= keys@.len(),
            keys@ == sorted_depths(tree@.dom()),
            forall|i: int| 0 <= i < keys@.len() ==> tree@.contains_key(#[trigger] keys@[i]),
            forall|i: int| 0 <= i < keys@.len() ==> tree@[#[trigger] keys@[i]]@.len() <= max_width,
            max_width as nat == widest(keys@, tree@),
            views(nodes@) == layout(keys@.take(j as int), tree@, max_width as nat),
        decreases keys@.len() - j,
    {
        let depth = keys[j];
        assert(tree@.contains_key(keys@[j as int]));
        let rows = tree.get(&depth).unwrap();
        assert(tree@[keys@[j as int]]@.len() <= max_width);
        let width = rows.len();
        let width_diff = max_width - width;
        let ghost done = views(nodes@);
        proof {
            assert(keys@.take(j + 1).drop_last() == keys@.take(j as int));
        }
        let mut index: usize = 0;
        while index < width
            invariant
                index <= width,
                width == rows@.len(),
                width_diff == max_width - width,
                done == layout(keys@.take(j as int), tree@, max_width as nat),
                views(nodes@) == done + level_nodes(rows@, depth, max_width as nat).take(index as int),
            decreases width - index,
        {
            let x_halves: u128 = width_diff as u128 + 2 * (index as u128);
            let node = node_for(&rows[index], x_halves, depth);
            let ghost level = level_nodes(rows@, depth, max_width as nat);
            let ghost before = nodes@;
            nodes.push(node);
            proof {
                assert(level.take(index + 1) == level.take(index as int).push(level[index as int]));
                assert(views(nodes@) == views(before).push(node@));
            }
            index = index + 1;
        }
        proof {
            assert(level_nodes(rows@, depth, max_width as nat).take(width as int)
                == level_nodes(rows@, depth, max_width as nat));
        }
        j = j + 1;
    }
    proof {
        assert(keys@.take(keys@.len() as int) == keys@);
    }
    nodes
}

/// The lines of a picture: from each node, in order, to each of its links.
pub fn tree_links(nodes: &Vec<TreeNode>) -> (lines: Vec<(i64, i64)>)
    ensures
        lines@ == links_of(views(nodes@)),
        lines@.len() == link_total(views(nodes@)),
{
    let mut lines: Vec<(i64, i64)> = Vec::new();
    let mut j: usize = 0;
    while j < nodes.len()
        invariant
            j <= nodes@.len(),
            lines@ == links_of(views(nodes@.take(j as int))),
        decreases nodes@.len() - j,
    {
        let node = &nodes[j];
        let ghost done = lines@;
        proof {
            assert(views(nodes@.take(j + 1)).drop_last() == views(nodes@.take(j as int)));
            assert(views(nodes@.take(j + 1)).last() == node@);
        }
        let mut l: usize = 0;
        while l < node.links.len()
            invariant
                l <= node.links@.len(),
                lines@ == done + node.links@.take(l as int).map_values(|t: i64| (node.id, t)),
            decreases node.links@.len() - l,
        {
            proof {
                assert(node.links@.take(l + 1).map_values(|t: i64| (node.id, t))
                    == node.links@.take(l as int).map_values(|t: i64| (node.id, t)).push((node.id, node.links@[l as int])));
            }
            lines.push((node.id, node.links[l]));
            l = l + 1;
        }
        proof {
            assert(node.links@.take(l as int) == node.links@);
        }
        j = j + 1;
    }
    proof {
        assert(nodes@.take(nodes@.len() as int) == nodes@);
        lemma_links_of_each(views(nodes@));
    }
    lines
}

/// What `/tree` registers.
pub fn command() -> (spec: CommandSpec)
    ensures
        spec.describes(
            "tree"@,
            "Adopt another user into your family."@,
            seq![("user"@, "The user to adopt."@, false)],
            false,
        ),
{
    let mut options: Vec<UserOption> = Vec::new();
    options.push(user_option("user", "The user to adopt.", false));
    command_spec("tree", "Adopt another user into your family.", options, false)
}

/// The serenity builder of `/tree`.
pub fn register() -> (command: CreateCommand)
    ensures
        registers(command, "tree"@, "Adopt another user into your family."@, seq![("user"@, "The user to adopt."@, false)], false),
{
    let spec = command();
    let command = build_command(&spec);
    proof {
        lemma_builds_registers(command, spec, "tree"@, "Adopt another user into your family."@, seq![("user"@, "The user to adopt."@, false)], false);
    }
    command
}

} // verus!
