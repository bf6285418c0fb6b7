//! The order in which the entries of a directory are listed: large ones first, then by name.

use vstd::prelude::*;

use crate::model::Node;
use crate::text::name_before;

verus! {

use crate::model::NodeModel;
use crate::text::text_before;

/// Whether `a` is listed before `b`: it is larger, or as large and its name comes first.
pub open spec fn comes_before(a: NodeModel, b: NodeModel) -> bool {
    a.size > b.size || (a.size == b.size && text_before(a.name, b.name))
}

/// `list` with `entry` put behind everything that it does not come before.
pub open spec fn inserted(list: Seq<NodeModel>, entry: NodeModel) -> Seq<NodeModel>
    decreases list.len(),
{
    if list.len() > 0 && comes_before(entry, list.last()) {
        inserted(list.drop_last(), entry).push(list.last())
    } else {
        list.push(entry)
    }
}

/// The entries in listing order; entries of the same size and name keep their order.
pub open spec fn listed(entries: Seq<NodeModel>) -> Seq<NodeModel>
    decreases entries.len(),
{
    if entries.len() == 0 {
        entries
    } else {
        inserted(listed(entries.drop_last()), entries.last())
    }
}

/// Whether a list is in listing order.
pub open spec fn in_order(list: Seq<NodeModel>) -> bool {
    forall|i: int, j: int| 0 <= i < j < list.len() ==> !comes_before(list[j], list[i])
}

/// The contents of a list of nodes.
pub open spec fn models(nodes: Seq<Node>) -> Seq<NodeModel> {
    nodes.map_values(|node: Node| node@)
}

/// The children in a node's content are the contents of its children.
pub proof fn lemma_models_of_children(node: Node)
    ensures
        models(node.children@) == node@.children,
{
    assert(models(node.children@) =~= node@.children);
}

/// Of two different names one comes first, and never both.
pub proof fn lemma_text_total(a: Seq<char>, b: Seq<char>)
    ensures
        !(text_before(a, b) && text_before(b, a)),
        text_before(a, b) || text_before(b, a) || a == b,
        !text_before(a, a),
    decreases a.len(),
{
    if a.len() > 0 {
        lemma_text_total(a.drop_first(), a.drop_first());
    }
    if a.len() > 0 && b.len() > 0 {
        lemma_text_total(a.drop_first(), b.drop_first());
        if a[0] == b[0] && a.drop_first() == b.drop_first() {
            assert(a =~= seq![a[0]] + a.drop_first());
            assert(b =~= seq![b[0]] + b.drop_first());
        }
    } else if a.len() == 0 && b.len() == 0 {
        assert(a =~= b);
    }
}

proof fn lemma_text_transitive(a: Seq<char>, b: Seq<char>, c: Seq<char>)
    requires
        text_before(a, b),
        text_before(b, c),
    ensures
        text_before(a, c),
    decreases a.len(),
{
    if a.len() > 0 && a[0] == b[0] && b[0] == c[0] {
        lemma_text_transitive(a.drop_first(), b.drop_first(), c.drop_first());
    }
}

/// The listing order is a strict weak order.
pub proof fn lemma_order(a: NodeModel, b: NodeModel, c: NodeModel)
    ensures
        comes_before(a, b) ==> !comes_before(b, a),
        !comes_before(a, a),
        comes_before(a, b) && comes_before(b, c) ==> comes_before(a, c),
        !comes_before(a, b) && comes_before(a, c) ==> comes_before(b, c),
{
    lemma_text_total(a.name, b.name);
    lemma_text_total(b.name, c.name);
    if text_before(a.name, b.name) && text_before(b.name, c.name) {
        lemma_text_transitive(a.name, b.name, c.name);
    }
    if text_before(b.name, a.name) && text_before(a.name, c.name) {
        lemma_text_transitive(b.name, a.name, c.name);
    }
}

spec fn merged(a: Seq<NodeModel>, b: Seq<NodeModel>) -> Seq<NodeModel>
    decreases a.len() + b.len(),
{
    if a.len() == 0 {
        b
    } else if b.len() == 0 {
        a
    } else if comes_before(b.last(), a.last()) {
        merged(a.drop_last(), b).push(a.last())
    } else {
        merged(a, b.drop_last()).push(b.last())
    }
}

proof fn lemma_merge_insert(a: Seq<NodeModel>, b: Seq<NodeModel>, x: NodeModel)
    ensures
        merged(a, inserted(b, x)) == inserted(merged(a, b), x),
    decreases a.len() + b.len(),
{
    assert(b.push(x).drop_last() =~= b);
    if a.len() == 0 {
    } else if b.len() == 0 {
        if comes_before(x, a.last()) {
            lemma_merge_insert(a.drop_last(), b, x);
            assert(b.push(x) == inserted(b, x));
            assert(merged(a.drop_last(), b) =~= a.drop_last());
        } else {
            assert(merged(a, b) == a);
        }
    } else {
        let p = a.last();
        let q = b.last();
        lemma_order(x, q, p);
        lemma_order(x, p, q);
        lemma_order(q, p, x);
        let m = merged(a, b);
        if comes_before(q, p) {
            assert(m.drop_last() =~= merged(a.drop_last(), b));
        } else {
            assert(m.drop_last() =~= merged(a, b.drop_last()));
        }
        if !comes_before(x, q) {
            if comes_before(x, p) {
                lemma_merge_insert(a.drop_last(), b, x);
            }
        } else {
            let ins = inserted(b.drop_last(), x);
            assert(inserted(b, x) == ins.push(q));
            assert(ins.push(q).drop_last() =~= ins);
            if comes_before(q, p) {
                lemma_merge_insert(a.drop_last(), b, x);
            } else {
                lemma_merge_insert(a, b.drop_last(), x);
            }
        }
    }
}

proof fn lemma_merge_listed(a: Seq<NodeModel>, b: Seq<NodeModel>)
    ensures
        merged(listed(a), listed(b)) == listed(a + b),
    decreases b.len(),
{
    if b.len() == 0 {
        assert(a + b =~= a);
        if a.len() == 0 {
            assert(a =~= b);
        }
    } else {
        lemma_merge_listed(a, b.drop_last());
        assert((a + b).drop_last() =~= a + b.drop_last());
        lemma_merge_insert(listed(a), listed(b.drop_last()), b.last());
    }
}

/// Whether one entry is listed before another.
pub fn entry_before(a: &Node, b: &Node) -> (r: bool)
    ensures
        r == comes_before(a@, b@),
{
    a.size > b.size || (a.size == b.size && name_before(a.name.as_str(), b.name.as_str()))
}

proof fn lemma_models_push(nodes: Seq<Node>, node: Node)
    ensures
        models(nodes.push(node)) == models(nodes).push(node@),
{
    assert(models(nodes.push(node)) =~= models(nodes).push(node@));
}

proof fn lemma_models_pop(nodes: Seq<Node>)
    requires
        nodes.len() > 0,
    ensures
        models(nodes.drop_last()) == models(nodes).drop_last(),
        models(nodes).last() == nodes.last()@,
{
    assert(models(nodes.drop_last()) =~= models(nodes).drop_last());
}

proof fn lemma_push_reversed<A>(front: Seq<A>, item: A, back: Seq<A>)
    ensures
        front.push(item) + back.reverse() == front + back.push(item).reverse(),
{
    assert(front.push(item) + back.reverse() =~= front + back.push(item).reverse());
}

fn reverse_nodes(nodes: Vec<Node>) -> (reversed: Vec<Node>)
    ensures
        models(reversed@) == models(nodes@).reverse(),
{
    let mut rest = nodes;
    let mut reversed: Vec<Node> = Vec::new();
    while rest.len() > 0
        invariant
            models(reversed@) + models(rest@).reverse() == models(nodes@).reverse(),
        decreases rest.len(),
    {
        let ghost before_rest = models(rest@);
        let ghost before_reversed = models(reversed@);
        if let Some(node) = rest.pop() {
            proof {
                assert(models(rest@) =~= before_rest.drop_last());
                assert(before_rest.reverse() =~= seq![node@] + models(rest@).reverse());
            }
            reversed.push(node);
            assert(models(reversed@) =~= before_reversed.push(node@));
            assert(models(reversed@) + models(rest@).reverse() =~= before_reversed
                + before_rest.reverse());
        }
    }
    assert(models(reversed@) + models(rest@).reverse() =~= models(reversed@));
    reversed
}

proof fn lemma_merge_step(a: Seq<NodeModel>, b: Seq<NodeModel>, from_a: bool)
    requires
        from_a ==> a.len() > 0,
        !from_a ==> b.len() > 0,
        a.len() > 0 && b.len() > 0 ==> from_a == comes_before(b.last(), a.last()),
    ensures
        from_a ==> merged(a, b) == merged(a.drop_last(), b).push(a.last()),
        !from_a ==> merged(a, b) == merged(a, b.drop_last()).push(b.last()),
{
    if b.len() == 0 {
        assert(a.drop_last().push(a.last()) =~= a);
        assert(merged(a.drop_last(), b) =~= a.drop_last());
    } else if a.len() == 0 {
        assert(b.drop_last().push(b.last()) =~= b);
    }
}

fn merge_nodes(a: Vec<Node>, b: Vec<Node>) -> (all: Vec<Node>)
    ensures
        models(all@) == merged(models(a@), models(b@)),
{
    let mut left = a;
    let mut right = b;
    // Built from the back.
    let mut back: Vec<Node> = Vec::new();
    proof {
        assert(models(back@).reverse() =~= Seq::empty());
        assert(merged(models(a@), models(b@)) + Seq::<NodeModel>::empty() =~= merged(
            models(a@),
            models(b@),
        ));
    }
    while left.len() > 0 || right.len() > 0
        invariant
            merged(models(left@), models(right@)) + models(back@).reverse() == merged(
                models(a@),
                models(b@),
            ),
        decreases left.len() + right.len(),
    {
        let ghost l = left@;
        let ghost r = right@;
        let ghost k = back@;
        let take_left = if left.len() == 0 {
            false
        } else if right.len() == 0 {
            true
        } else {
            entry_before(&right[right.len() - 1], &left[left.len() - 1])
        };
        let taken = if take_left {
            left.pop()
        } else {
            right.pop()
        };
        if let Some(node) = taken {
            back.push(node);
            proof {
                if take_left {
                    lemma_models_pop(l);
                    assert(left@ == l.drop_last());
                } else {
                    lemma_models_pop(r);
                    assert(right@ == r.drop_last());
                }
                lemma_merge_step(models(l), models(r), take_left);
                lemma_models_push(k, node);
                lemma_push_reversed(merged(models(left@), models(right@)), node@, models(k));
            }
        }
    }
    let all = reverse_nodes(back);
    assert(models(all@) =~= merged(models(left@), models(right@)) + models(back@).reverse());
    all
}

/// Puts entries in listing order.
pub fn sort_entries(entries: Vec<Node>) -> (sorted: Vec<Node>)
    ensures
        models(sorted@) == listed(models(entries@)),
    decreases entries.len(),
{
    if entries.len() <= 1 {
        proof {
            reveal_with_fuel(listed, 2);
            reveal_with_fuel(inserted, 1);
            let m = models(entries@);
            if m.len() == 1 {
                assert(m.drop_last() =~= Seq::empty());
                assert(m =~= Seq::<NodeModel>::empty().push(m.last()));
            }
        }
        return entries;
    }
    let ghost whole = models(entries@);
    let mut first = entries;
    let half: usize = first.len() / 2;
    let second = first.split_off(half);
    proof {
        assert(whole =~= models(first@) + models(second@));
        lemma_merge_listed(models(first@), models(second@));
    }
    merge_nodes(sort_entries(first), sort_entries(second))
}

proof fn lemma_inserted(list: Seq<NodeModel>, entry: NodeModel)
    requires
        in_order(list),
    ensures
        in_order(inserted(list, entry)),
        inserted(list, entry).to_multiset() == list.to_multiset().insert(entry),
        inserted(list, entry).len() == list.len() + 1,
        forall|i: int|
            0 <= i <= list.len() ==> (#[trigger] inserted(list, entry)[i]) == entry
                || list.contains(inserted(list, entry)[i]),
    decreases list.len(),
{
    broadcast use vstd::seq_lib::group_to_multiset_ensures;

    if list.len() > 0 && comes_before(entry, list.last()) {
        let rest = list.drop_last();
        let last = list.last();
        lemma_inserted(rest, entry);
        let r = inserted(rest, entry);
        assert(list =~= rest.push(last));
        assert(r.push(last).to_multiset() =~= list.to_multiset().insert(entry));
        assert forall|i: int, j: int| 0 <= i < j < r.push(last).len() implies !comes_before(
            r.push(last)[j],
            r.push(last)[i],
        ) by {
            if j == r.len() {
                lemma_order(entry, last, last);
                if r[i] != entry {
                    let k = choose|k: int| 0 <= k < rest.len() && rest[k] == r[i];
                    assert(list[k] == r[i]);
                }
            }
        }
        assert forall|i: int| 0 <= i <= list.len() implies (#[trigger] inserted(list, entry)[i])
            == entry || list.contains(inserted(list, entry)[i]) by {
            if i < list.len() {
                assert(inserted(list, entry)[i] == r[i]);
                if r[i] != entry {
                    let k = choose|k: int| 0 <= k < rest.len() && rest[k] == r[i];
                    assert(list[k] == r[i]);
                }
            } else {
                assert(list[list.len() - 1] == last);
            }
        }
    } else {
        let r = list.push(entry);
        assert forall|i: int, j: int| 0 <= i < j < r.len() implies !comes_before(r[j], r[i]) by {
            if j == list.len() {
                lemma_order(entry, list.last(), list[i]);
                lemma_order(entry, list[i], list.last());
            }
        }
    }
}

/// The listing of a directory is in order, and holds the entries that there are.
pub proof fn law_listed(entries: Seq<NodeModel>)
    ensures
        in_order(listed(entries)),
        listed(entries).to_multiset() == entries.to_multiset(),
        listed(entries).len() == entries.len(),
    decreases entries.len(),
{
    broadcast use vstd::seq_lib::group_to_multiset_ensures;

    if entries.len() > 0 {
        law_listed(entries.drop_last());
        lemma_inserted(listed(entries.drop_last()), entries.last());
        assert(entries =~= entries.drop_last().push(entries.last()));
    }
}

/// Larger entries are listed first, and of entries of the same size the name of a later one never
/// comes before that of an earlier one.
pub proof fn law_largest_first(entries: Seq<NodeModel>, i: int, j: int)
    requires
        0 <= i < j < entries.len(),
    ensures
        listed(entries).len() == entries.len(),
        listed(entries)[i].size >= listed(entries)[j].size,
        listed(entries)[i].size == listed(entries)[j].size ==> !text_before(
            listed(entries)[j].name,
            listed(entries)[i].name,
        ),
{
    law_listed(entries);
    let list = listed(entries);
    assert(!comes_before(list[j], list[i]));
}

/// A list in which larger entries come first, with equal sizes by name, is in listing order, and
/// only such a list is.
pub proof fn law_in_order(list: Seq<NodeModel>)
    ensures
        in_order(list) <==> forall|i: int, j: int|
            0 <= i < j < list.len() ==> {
                &&& (#[trigger] list[i]).size >= (#[trigger] list[j]).size
                &&& list[i].size == list[j].size ==> !text_before(list[j].name, list[i].name)
            },
{
    if in_order(list) {
        assert forall|i: int, j: int| 0 <= i < j < list.len() implies {
            &&& (#[trigger] list[i]).size >= (#[trigger] list[j]).size
            &&& list[i].size == list[j].size ==> !text_before(list[j].name, list[i].name)
        } by {
            assert(!comes_before(list[j], list[i]));
        }
    }
}

/// Listing what is in order already changes nothing.
pub proof fn law_listed_keeps_order(entries: Seq<NodeModel>)
    requires
        in_order(entries),
    ensures
        listed(entries) == entries,
    decreases entries.len(),
{
    if entries.len() > 0 {
        let rest = entries.drop_last();
        law_listed_keeps_order(rest);
        if rest.len() > 0 {
            assert(rest.last() == entries[entries.len() - 2]);
        }
        assert(rest.push(entries.last()) =~= entries);
    }
}

/// The entries of one size and one name.
pub open spec fn alike(entry: NodeModel, size: nat, name: Seq<char>) -> bool {
    entry.size == size && entry.name == name
}

proof fn lemma_inserted_alike(list: Seq<NodeModel>, entry: NodeModel, size: nat, name: Seq<char>)
    ensures
        inserted(list, entry).filter(|e: NodeModel| alike(e, size, name)) == list.push(
            entry,
        ).filter(|e: NodeModel| alike(e, size, name)),
    decreases list.len(),
{
    let p = |e: NodeModel| alike(e, size, name);
    reveal_with_fuel(Seq::filter, 3);
    if list.len() > 0 && comes_before(entry, list.last()) {
        let rest = list.drop_last();
        let last = list.last();
        lemma_inserted_alike(rest, entry, size, name);
        let r = inserted(rest, entry);
        lemma_order(entry, last, last);
        lemma_text_total(entry.name, last.name);
        assert(!(p(entry) && p(last)));
        assert(r.push(last).drop_last() =~= r);
        assert(rest.push(entry).drop_last() =~= rest);
        assert(list.push(entry).drop_last() =~= list);
    }
}

/// Entries of the same size and name keep their order in the listing.
pub proof fn law_listed_stable(entries: Seq<NodeModel>, size: nat, name: Seq<char>)
    ensures
        listed(entries).filter(|e: NodeModel| alike(e, size, name)) == entries.filter(
            |e: NodeModel| alike(e, size, name),
        ),
    decreases entries.len(),
{
    let p = |e: NodeModel| alike(e, size, name);
    reveal(Seq::filter);
    if entries.len() > 0 {
        let rest = entries.drop_last();
        let last = entries.last();
        law_listed_stable(rest, size, name);
        lemma_inserted_alike(listed(rest), last, size, name);
        assert(listed(rest).push(last).drop_last() =~= listed(rest));
    }
}

} // verus!
