//! Finding, removing and measuring entries of a scanned tree.

use vstd::prelude::*;
use vstd::string::*;

use crate::model::{Node, NodeKind};
use crate::order::sort_entries;
use crate::text::same_text;

verus! {

use crate::model::NodeModel;
use crate::order::{listed, models};

/// The first entry at the path `target`: an entry comes before its children, and those in turn.
pub open spec fn find(node: NodeModel, target: Seq<char>) -> Option<NodeModel>
    decreases node,
{
    if node.path == target {
        Some(node)
    } else {
        find_among(node.children, target)
    }
}

/// The first entry at the path `target` in a list of trees.
pub open spec fn find_among(nodes: Seq<NodeModel>, target: Seq<char>) -> Option<NodeModel>
    decreases nodes,
{
    if nodes.len() == 0 {
        None
    } else {
        match find(nodes[0], target) {
            Some(found) => Some(found),
            None => find_among(nodes.drop_first(), target),
        }
    }
}

/// The tree with the first entry at the path `target` replaced.
pub open spec fn replaced(node: NodeModel, target: Seq<char>, new: NodeModel) -> NodeModel
    decreases node,
{
    if node.path == target {
        new
    } else {
        NodeModel { children: replaced_among(node.children, target, new), ..node }
    }
}

/// The trees with the first entry at the path `target` replaced.
pub open spec fn replaced_among(
    nodes: Seq<NodeModel>,
    target: Seq<char>,
    new: NodeModel,
) -> Seq<NodeModel>
    decreases nodes,
{
    if nodes.len() == 0 {
        nodes
    } else if find(nodes[0], target) is Some {
        seq![replaced(nodes[0], target, new)] + nodes.drop_first()
    } else {
        seq![nodes[0]] + replaced_among(nodes.drop_first(), target, new)
    }
}

proof fn lemma_find_skips(nodes: Seq<NodeModel>, target: Seq<char>, k: int)
    requires
        0 <= k <= nodes.len(),
        forall|j: int| 0 <= j < k ==> find(#[trigger] nodes[j], target) is None,
    ensures
        find_among(nodes, target) == find_among(nodes.skip(k), target),
        forall|new: NodeModel| #[trigger]
            replaced_among(nodes, target, new) == nodes.take(k) + replaced_among(
                nodes.skip(k),
                target,
                new,
            ),
    decreases k,
{
    if k == 0 {
        assert(nodes.skip(0) =~= nodes);
        assert forall|new: NodeModel| #[trigger]
            replaced_among(nodes, target, new) == nodes.take(k) + replaced_among(
                nodes.skip(k),
                target,
                new,
            ) by {
            assert(nodes.take(0) + replaced_among(nodes, target, new) =~= replaced_among(
                nodes,
                target,
                new,
            ));
        }
    } else {
        let rest = nodes.drop_first();
        assert forall|j: int| 0 <= j < k - 1 implies find(#[trigger] rest[j], target) is None by {
            assert(rest[j] == nodes[j + 1]);
        }
        lemma_find_skips(rest, target, k - 1);
        assert(rest.skip(k - 1) =~= nodes.skip(k));
        assert(find(nodes[0], target) is None);
        assert forall|new: NodeModel| #[trigger]
            replaced_among(nodes, target, new) == nodes.take(k) + replaced_among(
                nodes.skip(k),
                target,
                new,
            ) by {
            assert(replaced_among(rest, target, new) == rest.take(k - 1) + replaced_among(
                rest.skip(k - 1),
                target,
                new,
            ));
            assert(seq![nodes[0]] + (rest.take(k - 1) + replaced_among(nodes.skip(k), target, new))
                =~= nodes.take(k) + replaced_among(nodes.skip(k), target, new));
        }
    }
}

proof fn lemma_replaced_at(nodes: Seq<NodeModel>, target: Seq<char>, k: int)
    requires
        0 <= k < nodes.len(),
        forall|j: int| 0 <= j < k ==> find(#[trigger] nodes[j], target) is None,
        find(nodes[k], target) is Some,
    ensures
        find_among(nodes, target) == find(nodes[k], target),
        forall|new: NodeModel| #[trigger]
            replaced_among(nodes, target, new) == nodes.update(
                k,
                replaced(nodes[k], target, new),
            ),
{
    lemma_find_skips(nodes, target, k);
    assert(nodes.skip(k)[0] == nodes[k]);
    assert forall|new: NodeModel| #[trigger]
        replaced_among(nodes, target, new) == nodes.update(k, replaced(nodes[k], target, new)) by {
        assert(nodes.take(k) + replaced_among(nodes.skip(k), target, new) =~= nodes.update(
            k,
            replaced(nodes[k], target, new),
        ));
    }
}

/// Finds the first entry at a path.
pub fn find_node_by_path<'a>(node: &'a Node, target: &str) -> (found: Option<&'a Node>)
    ensures
        match found {
            Some(n) => find(node@, target@) == Some(n@),
            None => find(node@, target@) is None,
        },
    decreases node,
{
    if same_text(node.path.as_str(), target) {
        return Some(node);
    }
    let mut i: usize = 0;
    while i < node.children.len()
        invariant
            i <= node.children.len(),
            node.path@ != target@,
            forall|j: int| 0 <= j < i ==> find((#[trigger] node.children@[j])@, target@) is None,
        decreases node.children.len() - i,
    {
        let found = find_node_by_path(&node.children[i], target);
        if found.is_some() {
            proof {
                let kids = node@.children;
                assert forall|j: int| 0 <= j < i implies find(#[trigger] kids[j], target@) is None by {
                    assert(kids[j] == node.children@[j]@);
                }
                lemma_find_skips(kids, target@, i as int);
                assert(kids.skip(i as int)[0] == node.children@[i as int]@);
            }
            return found;
        }
        i += 1;
    }
    proof {
        let kids = node@.children;
        assert forall|j: int| 0 <= j < kids.len() implies find(#[trigger] kids[j], target@) is None by {
            assert(kids[j] == node.children@[j]@);
        }
        lemma_find_skips(kids, target@, kids.len() as int);
    }
    None
}

proof fn lemma_child_replaced(before: Node, target: Seq<char>, k: int)
    requires
        0 <= k < before.children@.len(),
        before.path@ != target,
        forall|j: int| 0 <= j < k ==> find(#[trigger] before@.children[j], target) is None,
        find(before@.children[k], target) is Some,
    ensures
        find(before@, target) == find(before.children@[k]@, target),
        forall|after: Node, new: NodeModel|
            #![trigger after.model(), replaced(before.model(), target, new)]
            {
                &&& after.name == before.name
                &&& after.path == before.path
                &&& after.kind == before.kind
                &&& after.size == before.size
                &&& after.children@ == before.children@.update(k, after.children@[k])
                &&& after.children@[k]@ == replaced(before.children@[k]@, target, new)
            } ==> after.model() == replaced(before.model(), target, new),
{
    let kids = before@.children;
    lemma_replaced_at(kids, target, k);
    assert forall|after: Node, new: NodeModel|
        #![trigger after.model(), replaced(before.model(), target, new)]
        {
            &&& after.name == before.name
            &&& after.path == before.path
            &&& after.kind == before.kind
            &&& after.size == before.size
            &&& after.children@ == before.children@.update(k, after.children@[k])
            &&& after.children@[k]@ == replaced(before.children@[k]@, target, new)
        } implies after.model() == replaced(before.model(), target, new) by {
        assert(replaced_among(kids, target, new) == kids.update(
            k,
            replaced(kids[k], target, new),
        ));
        assert(after@.children =~= kids.update(k, replaced(kids[k], target, new)));
    }
}

/// Finds the first entry at a path, to change it.
pub fn find_node_by_path_mut<'a>(node: &'a mut Node, target: &str) -> (found: Option<&'a mut Node>)
    ensures
        match found {
            Some(n) => {
                &&& find(old(node)@, target@) == Some((*n)@)
                &&& final(node)@ == replaced(old(node)@, target@, (*final(n))@)
            },
            None => find(old(node)@, target@) is None && final(node)@ == old(node)@,
        },
    decreases *old(node),
{
    if same_text(node.path.as_str(), target) {
        return Some(node);
    }
    let mut i: usize = 0;
    while i < node.children.len()
        invariant
            *node == *old(node),
            i <= node.children.len(),
            node.path@ != target@,
            forall|j: int| 0 <= j < i ==> find((#[trigger] node.children@[j])@, target@) is None,
        decreases node.children.len() - i,
    {
        if find_node_by_path(&node.children[i], target).is_some() {
            proof {
                let kids = node@.children;
                assert forall|j: int| 0 <= j < i implies find(#[trigger] kids[j], target@) is None by {
                    assert(kids[j] == node.children@[j]@);
                }
                lemma_child_replaced(*node, target@, i as int);
            }
            return find_node_by_path_mut(&mut node.children[i], target);
        }
        i += 1;
    }
    proof {
        let kids = node@.children;
        assert forall|j: int| 0 <= j < kids.len() implies find(#[trigger] kids[j], target@) is None by {
            assert(kids[j] == node.children@[j]@);
        }
        lemma_find_skips(kids, target@, kids.len() as int);
    }
    None
}

/// The child at `index` of the first entry at the path `dir`, if that entry is a directory with
/// so many children.
pub open spec fn child_at(root: NodeModel, dir: Seq<char>, index: int) -> Option<NodeModel> {
    match find(root, dir) {
        Some(found) => if found.kind == NodeKind::Directory && 0 <= index < found.children.len() {
            Some(found.children[index])
        } else {
            None
        },
        None => None,
    }
}

/// The tree without that child; the tree itself where there is none.
pub open spec fn without_child(root: NodeModel, dir: Seq<char>, index: int) -> NodeModel {
    if child_at(root, dir, index) is Some {
        let found = find(root, dir)->0;
        replaced(root, dir, NodeModel { children: found.children.remove(index), ..found })
    } else {
        root
    }
}

proof fn lemma_replaced_by_itself(node: NodeModel, target: Seq<char>)
    requires
        find(node, target) is Some,
    ensures
        replaced(node, target, find(node, target)->0) == node,
    decreases node,
{
    if node.path != target {
        lemma_replaced_among_by_itself(node.children, target);
    }
}

proof fn lemma_replaced_among_by_itself(nodes: Seq<NodeModel>, target: Seq<char>)
    requires
        find_among(nodes, target) is Some,
    ensures
        replaced_among(nodes, target, find_among(nodes, target)->0) == nodes,
    decreases nodes,
{
    if nodes.len() > 0 {
        if find(nodes[0], target) is Some {
            lemma_replaced_by_itself(nodes[0], target);
        } else {
            lemma_replaced_among_by_itself(nodes.drop_first(), target);
        }
        assert(seq![nodes[0]] + nodes.drop_first() =~= nodes);
    }
}

/// Takes a child out of the first entry at a path.
pub fn remove_child_by_dir_path(root: &mut Node, dir_path: &str, child_index: usize) -> (removed:
    Option<Node>)
    ensures
        match removed {
            Some(node) => child_at(old(root)@, dir_path@, child_index as int) == Some(node@),
            None => child_at(old(root)@, dir_path@, child_index as int) is None,
        },
        final(root)@ == without_child(old(root)@, dir_path@, child_index as int),
{
    let ghost before = root@;
    match find_node_by_path_mut(root, dir_path) {
        None => None,
        Some(directory) => {
            if directory.kind != NodeKind::Directory || child_index >= directory.children.len() {
                proof {
                    lemma_replaced_by_itself(before, dir_path@);
                }
                return None;
            }
            let ghost found = directory@;
            let removed = directory.children.remove(child_index);
            assert(directory@.children =~= found.children.remove(child_index as int));
            Some(removed)
        },
    }
}

/// The size of everything at and below an entry: what lies in a directory counts, otherwise the
/// entry's own size.
pub open spec fn total(node: NodeModel) -> nat
    decreases node,
{
    if node.kind == NodeKind::Directory {
        total_of(node.children)
    } else {
        node.size
    }
}

/// The size of everything at and below a list of entries.
pub open spec fn total_of(nodes: Seq<NodeModel>) -> nat
    decreases nodes,
{
    if nodes.len() == 0 {
        0
    } else {
        total_of(nodes.drop_last()) + total(nodes.last())
    }
}

/// The sum of the sizes that a list of entries holds.
pub open spec fn sum_of_sizes(nodes: Seq<NodeModel>) -> nat
    decreases nodes.len(),
{
    if nodes.len() == 0 {
        0
    } else {
        sum_of_sizes(nodes.drop_last()) + nodes.last().size
    }
}

/// The tree with the size of every directory made the total of what lies in it, and its children
/// in listing order. What is not a directory stays as it is.
pub open spec fn recalculated(node: NodeModel) -> NodeModel
    decreases node,
{
    if node.kind == NodeKind::Directory {
        NodeModel {
            size: total(node),
            children: listed(all_recalculated(node.children)),
            ..node
        }
    } else {
        node
    }
}

/// The trees of a list, each recalculated.
pub open spec fn all_recalculated(nodes: Seq<NodeModel>) -> Seq<NodeModel>
    decreases nodes,
{
    if nodes.len() == 0 {
        nodes
    } else {
        all_recalculated(nodes.drop_last()).push(recalculated(nodes.last()))
    }
}

proof fn lemma_all_recalculated(nodes: Seq<NodeModel>)
    ensures
        all_recalculated(nodes).len() == nodes.len(),
        forall|i: int|
            0 <= i < nodes.len() ==> #[trigger] all_recalculated(nodes)[i] == recalculated(
                nodes[i],
            ),
    decreases nodes.len(),
{
    if nodes.len() > 0 {
        lemma_all_recalculated(nodes.drop_last());
    }
}

proof fn lemma_total_of_prefix(nodes: Seq<NodeModel>, k: int)
    requires
        0 <= k < nodes.len(),
    ensures
        total_of(nodes.take(k + 1)) == total_of(nodes.take(k)) + total(nodes[k]),
        total_of(nodes.take(k + 1)) <= total_of(nodes),
    decreases nodes.len() - k,
{
    assert(nodes.take(k + 1).drop_last() =~= nodes.take(k));
    if k + 1 < nodes.len() {
        lemma_total_of_prefix(nodes, k + 1);
    } else {
        assert(nodes.take(k + 1) =~= nodes);
    }
}

/// The size of everything at and below an entry, if it can be held.
pub fn tree_total(node: &Node) -> (sum: Option<u64>)
    ensures
        match sum {
            Some(size) => size == total(node@),
            None => total(node@) > u64::MAX,
        },
    decreases node,
{
    if node.kind != NodeKind::Directory {
        return Some(node.size);
    }
    let mut sum: u64 = 0;
    let mut i: usize = 0;
    let ghost kids = node@.children;
    while i < node.children.len()
        invariant
            i <= node.children.len(),
            kids == node@.children,
            node.kind == NodeKind::Directory,
            sum == total_of(kids.take(i as int)),
        decreases node.children.len() - i,
    {
        proof {
            lemma_total_of_prefix(kids, i as int);
            assert(kids[i as int] == node.children@[i as int]@);
        }
        match tree_total(&node.children[i]) {
            None => {
                return None;
            },
            Some(part) => match sum.checked_add(part) {
                None => {
                    return None;
                },
                Some(next) => {
                    sum = next;
                },
            },
        }
        i += 1;
    }
    assert(kids.take(i as int) =~= kids);
    Some(sum)
}

/// Makes the size of every directory the total of what lies in it, and puts its children in
/// listing order. Returns the total.
pub fn recalculate_sizes_and_sort(node: &mut Node) -> (sum: u64)
    requires
        total(old(node)@) <= u64::MAX,
    ensures
        sum == total(old(node)@),
        final(node)@ == recalculated(old(node)@),
    decreases *old(node),
{
    if node.kind != NodeKind::Directory {
        return node.size;
    }
    let ghost before = *node;
    let ghost kids = node@.children;
    let mut sum: u64 = 0;
    let mut i: usize = 0;
    while i < node.children.len()
        invariant
            i <= node.children.len(),
            node.children.len() == kids.len(),
            before == *old(node),
            kids == before@.children,
            before.kind == NodeKind::Directory,
            total_of(kids) <= u64::MAX,
            sum == total_of(kids.take(i as int)),
            node.name == before.name,
            node.path == before.path,
            node.kind == before.kind,
            forall|j: int| 0 <= j < i ==> (#[trigger] node.children@[j])@ == recalculated(kids[j]),
            forall|j: int|
                i <= j < kids.len() ==> (#[trigger] node.children@[j]) == before.children@[j],
        decreases node.children.len() - i,
    {
        proof {
            lemma_total_of_prefix(kids, i as int);
            assert(kids[i as int] == before.children@[i as int]@);
        }
        let part: u64 = recalculate_sizes_and_sort(&mut node.children[i]);
        sum = sum + part;
        i += 1;
    }
    assert(kids.take(i as int) =~= kids);
    node.size = sum;
    let mut children: Vec<Node> = Vec::new();
    children.append(&mut node.children);
    proof {
        lemma_all_recalculated(kids);
        assert(models(children@) =~= all_recalculated(kids));
    }
    node.children = sort_entries(children);
    proof {
        crate::order::lemma_models_of_children(*node);
    }
    sum
}

} // verus!
