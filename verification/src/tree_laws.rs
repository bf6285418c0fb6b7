//! What holds of every scanned tree, whatever is found in it, removed from it or recalculated.

use vstd::prelude::*;

verus! {

use crate::model::{NodeKind, NodeModel};
use crate::order::{comes_before, in_order, inserted, law_listed, law_listed_keeps_order, listed};
use crate::tree::{
    all_recalculated,
    child_at,
    find,
    find_among,
    recalculated,
    replaced,
    replaced_among,
    sum_of_sizes,
    total,
    total_of,
    without_child,
};

/// How many entries of a tree have the path `path`.
pub open spec fn occurrences(node: NodeModel, path: Seq<char>) -> nat
    decreases node,
{
    (if node.path == path {
        1nat
    } else {
        0nat
    }) + occurrences_among(node.children, path)
}

/// How many entries of a list of trees have the path `path`.
pub open spec fn occurrences_among(nodes: Seq<NodeModel>, path: Seq<char>) -> nat
    decreases nodes,
{
    if nodes.len() == 0 {
        0
    } else {
        occurrences_among(nodes.drop_last(), path) + occurrences(nodes.last(), path)
    }
}

/// Whether every directory that is reached through directories holds the sum of its children's
/// sizes, with the children in listing order.
pub open spec fn settled(node: NodeModel) -> bool
    decreases node,
{
    node.kind == NodeKind::Directory ==> {
        &&& node.size == sum_of_sizes(node.children)
        &&& in_order(node.children)
        &&& all_settled(node.children)
    }
}

/// Whether every tree of a list is settled.
pub open spec fn all_settled(nodes: Seq<NodeModel>) -> bool
    decreases nodes,
{
    nodes.len() > 0 ==> all_settled(nodes.drop_last()) && settled(nodes.last())
}

/// Whether only directories have children.
pub open spec fn proper(node: NodeModel) -> bool
    decreases node,
{
    &&& node.kind != NodeKind::Directory ==> node.children.len() == 0
    &&& all_proper(node.children)
}

/// Whether in every tree of a list only directories have children.
pub open spec fn all_proper(nodes: Seq<NodeModel>) -> bool
    decreases nodes,
{
    nodes.len() > 0 ==> all_proper(nodes.drop_last()) && proper(nodes.last())
}

spec fn weight(nodes: Seq<NodeModel>, f: spec_fn(NodeModel) -> nat) -> nat
    decreases nodes.len(),
{
    if nodes.len() == 0 {
        0
    } else {
        weight(nodes.drop_last(), f) + f(nodes.last())
    }
}

proof fn lemma_weights(nodes: Seq<NodeModel>, path: Seq<char>)
    ensures
        total_of(nodes) == weight(nodes, |n: NodeModel| total(n)),
        sum_of_sizes(nodes) == weight(nodes, |n: NodeModel| n.size),
        occurrences_among(nodes, path) == weight(nodes, |n: NodeModel| occurrences(n, path)),
    decreases nodes.len(),
{
    if nodes.len() > 0 {
        lemma_weights(nodes.drop_last(), path);
    }
}

proof fn lemma_weight_inserted(
    list: Seq<NodeModel>,
    entry: NodeModel,
    f: spec_fn(NodeModel) -> nat,
)
    ensures
        weight(inserted(list, entry), f) == weight(list, f) + f(entry),
    decreases list.len(),
{
    if list.len() > 0 && comes_before(entry, list.last()) {
        lemma_weight_inserted(list.drop_last(), entry, f);
        let rest = inserted(list.drop_last(), entry);
        assert(rest.push(list.last()).drop_last() =~= rest);
    } else {
        assert(list.push(entry).drop_last() =~= list);
    }
}

proof fn lemma_weight_listed(nodes: Seq<NodeModel>, f: spec_fn(NodeModel) -> nat)
    ensures
        weight(listed(nodes), f) == weight(nodes, f),
    decreases nodes.len(),
{
    if nodes.len() > 0 {
        lemma_weight_listed(nodes.drop_last(), f);
        lemma_weight_inserted(listed(nodes.drop_last()), nodes.last(), f);
    }
}

proof fn lemma_weight_split(a: Seq<NodeModel>, b: Seq<NodeModel>, f: spec_fn(NodeModel) -> nat)
    ensures
        weight(a + b, f) == weight(a, f) + weight(b, f),
    decreases b.len(),
{
    if b.len() == 0 {
        assert(a + b =~= a);
    } else {
        lemma_weight_split(a, b.drop_last(), f);
        assert((a + b).drop_last() =~= a + b.drop_last());
    }
}

proof fn lemma_weight_one(node: NodeModel, f: spec_fn(NodeModel) -> nat)
    ensures
        weight(seq![node], f) == f(node),
{
    reveal_with_fuel(weight, 2);
    assert(seq![node].drop_last() =~= Seq::empty());
}

proof fn lemma_weight_first(nodes: Seq<NodeModel>, f: spec_fn(NodeModel) -> nat)
    requires
        nodes.len() > 0,
    ensures
        weight(nodes, f) == f(nodes[0]) + weight(nodes.drop_first(), f),
{
    lemma_weight_one(nodes[0], f);
    lemma_weight_split(seq![nodes[0]], nodes.drop_first(), f);
    assert(seq![nodes[0]] + nodes.drop_first() =~= nodes);
}

/// An entry is found exactly where there is one, and what is found has the path that was asked for.
pub proof fn law_found(node: NodeModel, path: Seq<char>)
    ensures
        find(node, path) is Some <==> occurrences(node, path) > 0,
        find(node, path) is Some ==> find(node, path)->0.path == path,
    decreases node,
{
    if node.path != path {
        lemma_found_among(node.children, path);
    }
}

proof fn lemma_found_among(nodes: Seq<NodeModel>, path: Seq<char>)
    ensures
        find_among(nodes, path) is Some <==> occurrences_among(nodes, path) > 0,
        find_among(nodes, path) is Some ==> find_among(nodes, path)->0.path == path,
    decreases nodes,
{
    if nodes.len() > 0 {
        law_found(nodes[0], path);
        lemma_found_among(nodes.drop_first(), path);
        lemma_weights(nodes, path);
        lemma_weights(nodes.drop_first(), path);
        lemma_weight_first(nodes, |n: NodeModel| occurrences(n, path));
    }
}

proof fn lemma_occurrences_found(node: NodeModel, target: Seq<char>, path: Seq<char>)
    requires
        find(node, target) is Some,
    ensures
        occurrences(find(node, target)->0, path) <= occurrences(node, path),
    decreases node,
{
    if node.path != target {
        lemma_occurrences_found_among(node.children, target, path);
    }
}

proof fn lemma_occurrences_found_among(nodes: Seq<NodeModel>, target: Seq<char>, path: Seq<char>)
    requires
        find_among(nodes, target) is Some,
    ensures
        occurrences(find_among(nodes, target)->0, path) <= occurrences_among(nodes, path),
    decreases nodes,
{
    if nodes.len() > 0 {
        lemma_weights(nodes, path);
        lemma_weights(nodes.drop_first(), path);
        lemma_weight_first(nodes, |n: NodeModel| occurrences(n, path));
        if find(nodes[0], target) is Some {
            lemma_occurrences_found(nodes[0], target, path);
        } else {
            lemma_occurrences_found_among(nodes.drop_first(), target, path);
        }
    }
}

/// The path of a child of an entry that was found is found too.
pub proof fn law_found_below(root: NodeModel, path: Seq<char>, index: int)
    requires
        find(root, path) is Some,
        0 <= index < find(root, path)->0.children.len(),
    ensures
        find(root, find(root, path)->0.children[index].path) is Some,
{
    let dir = find(root, path)->0;
    let child = dir.children[index];
    lemma_occurrences_found(root, path, child.path);
    let f = |n: NodeModel| occurrences(n, child.path);
    lemma_removed_weight(dir.children, index, f);
    lemma_weights(dir.children, child.path);
    law_found(child, child.path);
    law_found(root, child.path);
}

proof fn lemma_occurrences_replaced(
    node: NodeModel,
    target: Seq<char>,
    new: NodeModel,
    path: Seq<char>,
)
    requires
        find(node, target) is Some,
    ensures
        occurrences(replaced(node, target, new), path) + occurrences(find(node, target)->0, path)
            == occurrences(node, path) + occurrences(new, path),
    decreases node,
{
    if node.path != target {
        lemma_occurrences_replaced_among(node.children, target, new, path);
    }
}

proof fn lemma_occurrences_replaced_among(
    nodes: Seq<NodeModel>,
    target: Seq<char>,
    new: NodeModel,
    path: Seq<char>,
)
    requires
        find_among(nodes, target) is Some,
    ensures
        occurrences_among(replaced_among(nodes, target, new), path) + occurrences(
            find_among(nodes, target)->0,
            path,
        ) == occurrences_among(nodes, path) + occurrences(new, path),
    decreases nodes,
{
    if nodes.len() > 0 {
        let f = |n: NodeModel| occurrences(n, path);
        let rest = nodes.drop_first();
        let r = replaced_among(nodes, target, new);
        lemma_weights(nodes, path);
        lemma_weights(rest, path);
        lemma_weights(r, path);
        lemma_weight_first(nodes, f);
        lemma_weight_first(r, f);
        lemma_weights(r.drop_first(), path);
        if find(nodes[0], target) is Some {
            lemma_occurrences_replaced(nodes[0], target, new, path);
            assert(r.drop_first() =~= rest);
        } else {
            lemma_occurrences_replaced_among(rest, target, new, path);
            assert(r.drop_first() =~= replaced_among(rest, target, new));
        }
    }
}

proof fn lemma_removed_weight(nodes: Seq<NodeModel>, k: int, f: spec_fn(NodeModel) -> nat)
    requires
        0 <= k < nodes.len(),
    ensures
        weight(nodes.remove(k), f) + f(nodes[k]) == weight(nodes, f),
{
    let a = nodes.take(k);
    let b = nodes.skip(k + 1);
    assert(nodes.remove(k) =~= a + b);
    assert(nodes =~= (a + seq![nodes[k]]) + b);
    lemma_weight_split(a, b, f);
    lemma_weight_split(a + seq![nodes[k]], b, f);
    lemma_weight_split(a, seq![nodes[k]], f);
    lemma_weight_one(nodes[k], f);
}

/// Removing a child takes out the child with everything below it, and nothing else.
pub proof fn law_removed(root: NodeModel, dir: Seq<char>, index: int, path: Seq<char>)
    requires
        child_at(root, dir, index) is Some,
    ensures
        occurrences(without_child(root, dir, index), path) + occurrences(
            child_at(root, dir, index)->0,
            path,
        ) == occurrences(root, path),
{
    let found = find(root, dir)->0;
    let new = NodeModel { children: found.children.remove(index), ..found };
    lemma_occurrences_replaced(root, dir, new, path);
    let f = |n: NodeModel| occurrences(n, path);
    lemma_removed_weight(found.children, index, f);
    lemma_weights(found.children, path);
    lemma_weights(new.children, path);
}

/// A removed child whose path no other entry has is not found any more.
pub proof fn law_removed_is_gone(root: NodeModel, dir: Seq<char>, index: int)
    requires
        child_at(root, dir, index) is Some,
        occurrences(root, child_at(root, dir, index)->0.path) == 1,
    ensures
        find(without_child(root, dir, index), child_at(root, dir, index)->0.path) is None,
{
    let child = child_at(root, dir, index)->0;
    law_removed(root, dir, index, child.path);
    law_found(without_child(root, dir, index), child.path);
}

/// The directory that lost a child is still found, with its other children.
pub proof fn law_removed_from(root: NodeModel, dir: Seq<char>, index: int)
    requires
        child_at(root, dir, index) is Some,
    ensures
        find(without_child(root, dir, index), dir) == Some(
            NodeModel {
                children: find(root, dir)->0.children.remove(index),
                ..find(root, dir)->0
            },
        ),
{
    let found = find(root, dir)->0;
    law_found(root, dir);
    lemma_find_replaced(
        root,
        dir,
        NodeModel { children: found.children.remove(index), ..found },
    );
}

proof fn lemma_find_replaced(node: NodeModel, target: Seq<char>, new: NodeModel)
    requires
        find(node, target) is Some,
        new.path == target,
    ensures
        find(replaced(node, target, new), target) == Some(new),
    decreases node,
{
    if node.path != target {
        lemma_find_replaced_among(node.children, target, new);
    }
}

proof fn lemma_find_replaced_among(nodes: Seq<NodeModel>, target: Seq<char>, new: NodeModel)
    requires
        find_among(nodes, target) is Some,
        new.path == target,
    ensures
        find_among(replaced_among(nodes, target, new), target) == Some(new),
    decreases nodes,
{
    if nodes.len() > 0 {
        let r = replaced_among(nodes, target, new);
        if find(nodes[0], target) is Some {
            lemma_find_replaced(nodes[0], target, new);
            assert(r[0] == replaced(nodes[0], target, new));
        } else {
            lemma_find_replaced_among(nodes.drop_first(), target, new);
            assert(r[0] == nodes[0]);
            assert(r.drop_first() =~= replaced_among(nodes.drop_first(), target, new));
        }
    }
}

/// Recalculating loses no entry and adds none.
pub proof fn law_recalculated_keeps_entries(node: NodeModel, path: Seq<char>)
    ensures
        occurrences(recalculated(node), path) == occurrences(node, path),
        find(recalculated(node), path) is Some <==> find(node, path) is Some,
    decreases node,
{
    law_found(node, path);
    law_found(recalculated(node), path);
    if node.kind == NodeKind::Directory {
        lemma_all_recalculated_entries(node.children, path);
        let f = |n: NodeModel| occurrences(n, path);
        lemma_weight_listed(all_recalculated(node.children), f);
        lemma_weights(all_recalculated(node.children), path);
        lemma_weights(listed(all_recalculated(node.children)), path);
    }
}

proof fn lemma_all_recalculated_entries(nodes: Seq<NodeModel>, path: Seq<char>)
    ensures
        occurrences_among(all_recalculated(nodes), path) == occurrences_among(nodes, path),
    decreases nodes,
{
    if nodes.len() > 0 {
        lemma_all_recalculated_entries(nodes.drop_last(), path);
        law_recalculated_keeps_entries(nodes.last(), path);
        let rest = all_recalculated(nodes.drop_last());
        assert(rest.push(recalculated(nodes.last())).drop_last() =~= rest);
    }
}

/// After recalculating, an entry's size is the total of what lies at and below it, every directory
/// holds the sum of its children's sizes, and its children are in listing order.
pub proof fn law_recalculated(node: NodeModel)
    ensures
        recalculated(node).size == total(node),
        total(recalculated(node)) == total(node),
        settled(recalculated(node)),
    decreases node,
{
    if node.kind == NodeKind::Directory {
        let all = all_recalculated(node.children);
        lemma_all_recalculated_settled(node.children);
        lemma_weight_listed(all, |n: NodeModel| total(n));
        lemma_weight_listed(all, |n: NodeModel| n.size);
        lemma_weights(all, node.path);
        lemma_weights(listed(all), node.path);
        law_listed(all);
        lemma_listed_settled(all);
    }
}

proof fn lemma_all_recalculated_settled(nodes: Seq<NodeModel>)
    ensures
        total_of(all_recalculated(nodes)) == total_of(nodes),
        sum_of_sizes(all_recalculated(nodes)) == total_of(nodes),
        all_settled(all_recalculated(nodes)),
    decreases nodes,
{
    if nodes.len() > 0 {
        lemma_all_recalculated_settled(nodes.drop_last());
        law_recalculated(nodes.last());
        let rest = all_recalculated(nodes.drop_last());
        assert(rest.push(recalculated(nodes.last())).drop_last() =~= rest);
    }
}

proof fn lemma_inserted_settled(list: Seq<NodeModel>, entry: NodeModel)
    requires
        all_settled(list),
        settled(entry),
    ensures
        all_settled(inserted(list, entry)),
    decreases list.len(),
{
    if list.len() > 0 && comes_before(entry, list.last()) {
        lemma_inserted_settled(list.drop_last(), entry);
        let rest = inserted(list.drop_last(), entry);
        assert(rest.push(list.last()).drop_last() =~= rest);
    } else {
        assert(list.push(entry).drop_last() =~= list);
    }
}

proof fn lemma_listed_settled(nodes: Seq<NodeModel>)
    requires
        all_settled(nodes),
    ensures
        all_settled(listed(nodes)),
    decreases nodes.len(),
{
    if nodes.len() > 0 {
        lemma_listed_settled(nodes.drop_last());
        lemma_inserted_settled(listed(nodes.drop_last()), nodes.last());
    }
}

proof fn lemma_inserted_proper(list: Seq<NodeModel>, entry: NodeModel)
    requires
        all_proper(list),
        proper(entry),
    ensures
        all_proper(inserted(list, entry)),
    decreases list.len(),
{
    if list.len() > 0 && comes_before(entry, list.last()) {
        lemma_inserted_proper(list.drop_last(), entry);
        let rest = inserted(list.drop_last(), entry);
        assert(rest.push(list.last()).drop_last() =~= rest);
    } else {
        assert(list.push(entry).drop_last() =~= list);
    }
}

proof fn lemma_listed_proper(nodes: Seq<NodeModel>)
    requires
        all_proper(nodes),
    ensures
        all_proper(listed(nodes)),
    decreases nodes.len(),
{
    if nodes.len() > 0 {
        lemma_listed_proper(nodes.drop_last());
        lemma_inserted_proper(listed(nodes.drop_last()), nodes.last());
    }
}

/// Listing entries keeps the sum of their sizes and what is found among them, and keeps them
/// settled and proper.
pub proof fn law_listed_keeps(nodes: Seq<NodeModel>, path: Seq<char>)
    ensures
        sum_of_sizes(listed(nodes)) == sum_of_sizes(nodes),
        occurrences_among(listed(nodes), path) == occurrences_among(nodes, path),
        all_settled(nodes) ==> all_settled(listed(nodes)),
        all_proper(nodes) ==> all_proper(listed(nodes)),
{
    lemma_weights(nodes, path);
    lemma_weights(listed(nodes), path);
    lemma_weight_listed(nodes, |n: NodeModel| n.size);
    lemma_weight_listed(nodes, |n: NodeModel| occurrences(n, path));
    if all_settled(nodes) {
        lemma_listed_settled(nodes);
    }
    if all_proper(nodes) {
        lemma_listed_proper(nodes);
    }
}

/// Recalculating a settled tree changes nothing.
pub proof fn law_settled_stays(node: NodeModel)
    requires
        settled(node),
    ensures
        recalculated(node) == node,
        total(node) == node.size,
    decreases node,
{
    if node.kind == NodeKind::Directory {
        lemma_all_settled_stay(node.children);
        law_listed_keeps_order(node.children);
    }
}

proof fn lemma_all_settled_stay(nodes: Seq<NodeModel>)
    requires
        all_settled(nodes),
    ensures
        all_recalculated(nodes) == nodes,
        total_of(nodes) == sum_of_sizes(nodes),
    decreases nodes,
{
    if nodes.len() > 0 {
        lemma_all_settled_stay(nodes.drop_last());
        law_settled_stays(nodes.last());
        assert(nodes.drop_last().push(nodes.last()) =~= nodes);
    }
}

/// Recalculating twice is the same as recalculating once.
pub proof fn law_recalculated_twice(node: NodeModel)
    ensures
        recalculated(recalculated(node)) == recalculated(node),
{
    law_recalculated(node);
    law_settled_stays(recalculated(node));
}

proof fn lemma_total_replaced(node: NodeModel, target: Seq<char>, new: NodeModel)
    requires
        find(node, target) is Some,
        new.kind == find(node, target)->0.kind,
        proper(node),
    ensures
        total(replaced(node, target, new)) + total(find(node, target)->0) == total(node) + total(
            new,
        ),
    decreases node,
{
    if node.path != target {
        lemma_total_replaced_among(node.children, target, new);
    }
}

proof fn lemma_proper_first(nodes: Seq<NodeModel>)
    requires
        all_proper(nodes),
        nodes.len() > 0,
    ensures
        proper(nodes[0]),
        all_proper(nodes.drop_first()),
    decreases nodes.len(),
{
    let rest = nodes.drop_last();
    if rest.len() > 0 {
        lemma_proper_first(rest);
        assert(nodes.drop_first().drop_last() =~= rest.drop_first());
    }
}

proof fn lemma_total_replaced_among(nodes: Seq<NodeModel>, target: Seq<char>, new: NodeModel)
    requires
        find_among(nodes, target) is Some,
        new.kind == find_among(nodes, target)->0.kind,
        all_proper(nodes),
    ensures
        total_of(replaced_among(nodes, target, new)) + total(find_among(nodes, target)->0)
            == total_of(nodes) + total(new),
    decreases nodes,
{
    if nodes.len() > 0 {
        let f = |n: NodeModel| total(n);
        let rest = nodes.drop_first();
        let r = replaced_among(nodes, target, new);
        lemma_proper_first(nodes);
        lemma_weights(nodes, target);
        lemma_weights(rest, target);
        lemma_weights(r, target);
        lemma_weight_first(nodes, f);
        lemma_weight_first(r, f);
        lemma_weights(r.drop_first(), target);
        if find(nodes[0], target) is Some {
            lemma_total_replaced(nodes[0], target, new);
            assert(r.drop_first() =~= rest);
        } else {
            lemma_total_replaced_among(rest, target, new);
            assert(r.drop_first() =~= replaced_among(rest, target, new));
        }
    }
}

/// Where only directories have children, removing a child lowers the total by the child's.
pub proof fn law_removed_total(root: NodeModel, dir: Seq<char>, index: int)
    requires
        child_at(root, dir, index) is Some,
        proper(root),
    ensures
        total(without_child(root, dir, index)) + total(child_at(root, dir, index)->0) == total(
            root,
        ),
{
    let found = find(root, dir)->0;
    let new = NodeModel { children: found.children.remove(index), ..found };
    lemma_total_replaced(root, dir, new);
    lemma_removed_weight(found.children, index, |n: NodeModel| total(n));
    lemma_weights(found.children, dir);
    lemma_weights(new.children, dir);
}

/// The sizes of a list of entries add up: none of them counts for nothing, one counts for its size
/// to the last byte, and two lists together count for what they count for one by one.
pub proof fn law_sums(a: Seq<NodeModel>, node: NodeModel, b: Seq<NodeModel>)
    ensures
        sum_of_sizes(Seq::empty()) == 0,
        sum_of_sizes(seq![node]) == node.size,
        sum_of_sizes(a + b) == sum_of_sizes(a) + sum_of_sizes(b),
{
    let f = |n: NodeModel| n.size;
    lemma_weights(a, node.path);
    lemma_weights(b, node.path);
    lemma_weights(a + b, node.path);
    lemma_weights(seq![node], node.path);
    lemma_weight_split(a, b, f);
    lemma_weight_one(node, f);
}

/// The totals of a list of trees add up; the total of an entry that is no directory is its size, and
/// that of a directory is the total of its children.
pub proof fn law_totals(a: Seq<NodeModel>, node: NodeModel, b: Seq<NodeModel>)
    ensures
        node.kind != NodeKind::Directory ==> total(node) == node.size,
        node.kind == NodeKind::Directory ==> total(node) == total_of(node.children),
        total_of(Seq::empty()) == 0,
        total_of(seq![node]) == total(node),
        total_of(a + b) == total_of(a) + total_of(b),
{
    let f = |n: NodeModel| total(n);
    lemma_weights(a, node.path);
    lemma_weights(b, node.path);
    lemma_weights(a + b, node.path);
    lemma_weights(seq![node], node.path);
    lemma_weight_split(a, b, f);
    lemma_weight_one(node, f);
}

/// An entry is found before those below it, and one in an earlier tree before one in a later.
pub proof fn law_found_first(node: NodeModel, a: Seq<NodeModel>, b: Seq<NodeModel>, path: Seq<char>)
    ensures
        find(node, node.path) == Some(node),
        path != node.path ==> find(node, path) == find_among(node.children, path),
        find_among(Seq::empty(), path) is None,
        find_among(seq![node], path) == find(node, path),
        find_among(a + b, path) == if find_among(a, path) is Some {
            find_among(a, path)
        } else {
            find_among(b, path)
        },
    decreases a.len(),
{
    reveal_with_fuel(find_among, 2);
    if a.len() == 0 {
        assert(a + b =~= b);
    } else {
        law_found_first(node, a.drop_first(), b, path);
        assert((a + b).drop_first() =~= a.drop_first() + b);
    }
}

/// A child is at a place of a directory exactly if the directory is found, is a directory, and has
/// so many children.
pub proof fn law_child_at(root: NodeModel, dir: Seq<char>, index: int)
    ensures
        child_at(root, dir, index) is Some <==> {
            &&& find(root, dir) matches Some(found)
            &&& found.kind == NodeKind::Directory
            &&& 0 <= index < found.children.len()
        },
        child_at(root, dir, index) is Some ==> child_at(root, dir, index)->0 == find(
            root,
            dir,
        )->0.children[index],
        child_at(root, dir, index) is None ==> without_child(root, dir, index) == root,
{
}

/// Recalculating changes nothing of an entry but the sizes of directories and the order of their
/// children: each child is still there, once, recalculated itself.
pub proof fn law_recalculated_keeps(node: NodeModel)
    ensures
        recalculated(node).name == node.name,
        recalculated(node).path == node.path,
        recalculated(node).kind == node.kind,
        node.kind != NodeKind::Directory ==> recalculated(node) == node,
        node.kind == NodeKind::Directory ==> {
            &&& recalculated(node).children.len() == node.children.len()
            &&& recalculated(node).children.to_multiset() == node.children.map_values(
                |n: NodeModel| recalculated(n),
            ).to_multiset()
        },
{
    if node.kind == NodeKind::Directory {
        lemma_all_recalculated_values(node.children);
        law_listed(all_recalculated(node.children));
        assert(all_recalculated(node.children) =~= node.children.map_values(
            |n: NodeModel| recalculated(n),
        ));
    }
}

proof fn lemma_all_recalculated_values(nodes: Seq<NodeModel>)
    ensures
        all_recalculated(nodes).len() == nodes.len(),
        forall|i: int|
            0 <= i < nodes.len() ==> #[trigger] all_recalculated(nodes)[i] == recalculated(
                nodes[i],
            ),
    decreases nodes.len(),
{
    if nodes.len() > 0 {
        lemma_all_recalculated_values(nodes.drop_last());
    }
}

} // verus!
