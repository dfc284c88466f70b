//! What the recorded operations do to the children of a display node.
//!
//! The engine records operations and never looks at the display. This is
//! the other side: the order of the children of one parent, and how each
//! operation changes it. Against it the engine is shown to leave the
//! display in the order that a render pass asks for.

use crate::dom::copy::copies_append_ops;
use crate::dom::copy::lemma_copy_size_grows;
use crate::dom::copy::node_copy_ops;
use crate::dom::copy::node_copy_size;
use crate::dom::copy::nodes_copy_ops;
use crate::dom::copy::nodes_copy_size;
use crate::dom::document::DomOpView;
use crate::dom::element::ElementStatus;
use crate::dom::keyed_list::KeyView;
use crate::dom::keyed_list::KeyedElement;
use crate::dom::keyed_list::Placement;
use crate::dom::keyed_list::anchor;
use crate::dom::keyed_list::created_size;
use crate::dom::keyed_list::first_filled;
use crate::dom::keyed_list::first_holding;
use crate::dom::keyed_list::item_ops;
use crate::dom::keyed_list::item_size;
use crate::dom::keyed_list::lemma_first_holding_holds;
use crate::dom::keyed_list::lemma_remaining_len;
use crate::dom::keyed_list::place_ops;
use crate::dom::keyed_list::placed_as;
use crate::dom::keyed_list::remaining;
use crate::dom::keyed_list::step_ops;
use crate::dom::nodes::Node;
use crate::dom::nodes::keyed_clear_ops;
use crate::dom::nodes::new_element_ops;
use crate::dom::nodes::new_group_ops;
use crate::dom::nodes::new_text_ops;
use crate::dom::nodes::node_clear_ops;
use crate::dom::nodes::nodes_clear_ops;
use vstd::prelude::*;

verus! {

/// The children without `child`.
pub open spec fn without(children: Seq<u64>, child: u64) -> Seq<u64>
    decreases children.len(),
{
    if children.len() == 0 {
        children
    } else if children.last() == child {
        without(children.drop_last(), child)
    } else {
        without(children.drop_last(), child).push(children.last())
    }
}

/// The children with `child` put before the first `next`.
pub open spec fn put_before(children: Seq<u64>, child: u64, next: u64) -> Seq<u64>
    decreases children.len(),
{
    if children.len() == 0 {
        children
    } else if children.first() == next {
        seq![child] + children
    } else {
        seq![children.first()] + put_before(children.drop_first(), child, next)
    }
}

/// The children of `parent` after one operation. A node that is put
/// somewhere leaves the place it had. A node is put before another only if
/// that one is a child of the parent, and other than the node itself; else
/// the display leaves everything as it is.
pub open spec fn apply_op(children: Seq<u64>, op: DomOpView, parent: u64) -> Seq<u64> {
    match op {
        DomOpView::InsertBefore { parent: p, child, next_sibling } => if p != parent {
            without(children, child)
        } else {
            match next_sibling {
                None => without(children, child).push(child),
                Some(next) => if next == child || !children.contains(next) {
                    children
                } else {
                    put_before(without(children, child), child, next)
                },
            }
        },
        DomOpView::RemoveChild { parent: p, child } => if p == parent {
            without(children, child)
        } else {
            children
        },
        _ => children,
    }
}

/// The children of `parent` after the operations, in their order.
pub open spec fn apply_ops(children: Seq<u64>, ops: Seq<DomOpView>, parent: u64) -> Seq<u64>
    decreases ops.len(),
{
    if ops.len() == 0 {
        children
    } else {
        apply_op(apply_ops(children, ops.drop_last(), parent), ops.last(), parent)
    }
}

/// Operations carried out one run after the other are carried out as one
/// run.
pub proof fn lemma_apply_ops_add(
    children: Seq<u64>,
    first: Seq<DomOpView>,
    second: Seq<DomOpView>,
    parent: u64,
)
    ensures
        apply_ops(children, first + second, parent) == apply_ops(
            apply_ops(children, first, parent),
            second,
            parent,
        ),
    decreases second.len(),
{
    if second.len() == 0 {
        assert(first + second =~= first);
    } else {
        lemma_apply_ops_add(children, first, second.drop_last(), parent);
        assert((first + second).drop_last() =~= first + second.drop_last());
        assert((first + second).last() == second.last());
    }
}

/// One operation is a run of one.
pub proof fn lemma_apply_one(children: Seq<u64>, op: DomOpView, parent: u64)
    ensures
        apply_ops(children, seq![op], parent) == apply_op(children, op, parent),
{
    assert(seq![op].drop_last() =~= Seq::<DomOpView>::empty());
    assert(apply_ops(children, seq![op].drop_last(), parent) == children);
}

/// Taking a node away from two runs of children takes it away from each.
pub proof fn lemma_without_add(a: Seq<u64>, b: Seq<u64>, child: u64)
    ensures
        without(a + b, child) == without(a, child) + without(b, child),
    decreases b.len(),
{
    if b.len() == 0 {
        assert(a + b =~= a);
        assert(without(a, child) + without(b, child) =~= without(a, child));
    } else {
        lemma_without_add(a, b.drop_last(), child);
        assert((a + b).drop_last() =~= a + b.drop_last());
        assert((a + b).last() == b.last());
        if b.last() != child {
            assert((without(a, child) + without(b.drop_last(), child)).push(b.last())
                =~= without(a, child) + without(b.drop_last(), child).push(b.last()));
        }
    }
}

/// Taking away a node that is not there changes nothing.
pub proof fn lemma_without_absent(children: Seq<u64>, child: u64)
    requires
        !children.contains(child),
    ensures
        without(children, child) == children,
    decreases children.len(),
{
    if children.len() > 0 {
        assert(children.last() == children[children.len() - 1]);
        assert forall|i: int| 0 <= i < children.len() - 1 implies children.drop_last()[i]
            != child by {
            assert(children.drop_last()[i] == children[i]);
        }
        assert(!children.drop_last().contains(child));
        lemma_without_absent(children.drop_last(), child);
        assert(children.drop_last().push(children.last()) =~= children);
    }
}

/// A node is put before the first of the children that follow a run in
/// which the first is not found.
pub proof fn lemma_put_before(a: Seq<u64>, b: Seq<u64>, child: u64)
    requires
        b.len() > 0,
        !a.contains(b[0]),
    ensures
        put_before(a + b, child, b[0]) == a + seq![child] + b,
    decreases a.len(),
{
    if a.len() == 0 {
        assert(a + b =~= b);
        assert(a + seq![child] + b =~= seq![child] + b);
    } else {
        assert(a[0] != b[0]);
        assert((a + b).first() == a[0]);
        assert((a + b).drop_first() =~= a.drop_first() + b);
        assert forall|i: int| 0 <= i < a.len() - 1 implies a.drop_first()[i] != b[0] by {
            assert(a.drop_first()[i] == a[i + 1]);
        }
        lemma_put_before(a.drop_first(), b, child);
        assert(seq![a[0]] + (a.drop_first() + seq![child] + b) =~= a + seq![child] + b);
    }
}

/// Among children that are all different, a node that stands between two
/// runs stands in neither.
pub proof fn lemma_distinct_parts(a: Seq<u64>, child: u64, b: Seq<u64>)
    requires
        (a + seq![child] + b).no_duplicates(),
    ensures
        !a.contains(child),
        !b.contains(child),
        (a + b).no_duplicates(),
{
    let all = a + seq![child] + b;
    assert(all[a.len() as int] == child);
    assert forall|i: int| 0 <= i < a.len() implies a[i] != child by {
        assert(all[i] == a[i]);
    }
    assert forall|i: int| 0 <= i < b.len() implies b[i] != child by {
        assert(all[a.len() + 1 + i] == b[i]);
    }
    assert forall|i: int, j: int| 0 <= i < (a + b).len() && 0 <= j < (a + b).len() && i
        != j implies (a + b)[i] != (a + b)[j] by {
        let ii = if i < a.len() {
            i
        } else {
            i + 1
        };
        let jj = if j < a.len() {
            j
        } else {
            j + 1
        };
        assert(all[ii] == (a + b)[i]);
        assert(all[jj] == (a + b)[j]);
    }
}

/// Taking a child away leaves the others in their order.
pub proof fn lemma_take_away(a: Seq<u64>, child: u64, b: Seq<u64>)
    requires
        (a + seq![child] + b).no_duplicates(),
    ensures
        without(a + seq![child] + b, child) == a + b,
{
    lemma_distinct_parts(a, child, b);
    lemma_without_add(a + seq![child], b, child);
    lemma_without_add(a, seq![child], child);
    lemma_without_absent(a, child);
    lemma_without_absent(b, child);
    assert(seq![child].len() == 1);
    assert(seq![child].last() == child);
    assert(seq![child].drop_last() =~= Seq::<u64>::empty());
    assert(without(Seq::<u64>::empty(), child) =~= Seq::<u64>::empty());
    assert(without(seq![child], child) == without(seq![child].drop_last(), child));
    assert(without(seq![child], child) =~= Seq::<u64>::empty());
    assert(a + Seq::<u64>::empty() + b =~= a + b);
}

/// A child that is moved before a child ahead of it comes to stand right
/// before that one, and the others keep their order.
pub proof fn lemma_move_ahead(
    before: Seq<u64>,
    ahead: Seq<u64>,
    child: u64,
    after: Seq<u64>,
    parent: u64,
)
    requires
        ahead.len() > 0,
        (before + ahead + seq![child] + after).no_duplicates(),
    ensures
        apply_op(
            before + ahead + seq![child] + after,
            DomOpView::InsertBefore { parent, child, next_sibling: Some(ahead[0]) },
            parent,
        ) == before + seq![child] + ahead + after,
{
    let all = before + ahead + seq![child] + after;
    let next = ahead[0];
    assert(all[before.len() as int] == next);
    assert(all[(before.len() + ahead.len()) as int] == child);
    assert(next != child);
    assert(all.contains(next));
    lemma_take_away(before + ahead, child, after);
    assert(without(all, child) == before + ahead + after);
    assert forall|i: int| 0 <= i < before.len() implies before[i] != next by {
        assert(all[i] == before[i]);
    }
    assert(before + ahead + after =~= before + (ahead + after));
    lemma_put_before(before, ahead + after, child);
    assert(before + seq![child] + (ahead + after) =~= before + seq![child] + ahead + after);
}

/// A node that is new to the parent and is put before the first of the
/// children that follow comes to stand there; put before nothing, it comes
/// last.
pub proof fn lemma_put_new(
    before: Seq<u64>,
    after: Seq<u64>,
    child: u64,
    parent: u64,
    next_sibling: Option<u64>,
)
    requires
        (before + after).no_duplicates(),
        !(before + after).contains(child),
        match next_sibling {
            Some(next) => after.len() > 0 && after[0] == next,
            None => after.len() == 0,
        },
    ensures
        apply_op(
            before + after,
            DomOpView::InsertBefore { parent, child, next_sibling },
            parent,
        ) == before + seq![child] + after,
{
    let all = before + after;
    lemma_without_absent(all, child);
    match next_sibling {
        Some(next) => {
            assert(all[before.len() as int] == next);
            assert(all.contains(next));
            assert(next != child);
            assert forall|i: int| 0 <= i < before.len() implies before[i] != next by {
                assert(all[i] == before[i]);
            }
            lemma_put_before(before, after, child);
        },
        None => {
            assert(all.push(child) =~= before + seq![child] + after);
        },
    }
}

/// Whether the children of `parent` are all different and, like the parent,
/// numbered below `limit`: no node that is made from `limit` on is among
/// them.
pub open spec fn settled(children: Seq<u64>, parent: u64, limit: nat) -> bool {
    &&& children.no_duplicates()
    &&& parent < limit
    &&& forall|i: int| 0 <= i < children.len() ==> children[i] < limit
}

/// Whether `next_sibling` is what follows the items of a list whose parent
/// has the children `after` behind them.
pub open spec fn follows(after: Seq<u64>, next_sibling: Option<u64>) -> bool {
    match next_sibling {
        Some(next) => after.len() > 0 && after[0] == next,
        None => after.len() == 0,
    }
}

/// The display nodes of the items that are there, in their order.
pub open spec fn item_ids<L, H>(items: Seq<Option<KeyedElement<L, H>>>) -> Seq<u64>
    decreases items.len(),
{
    if items.len() == 0 {
        Seq::empty()
    } else {
        item_ids(items.drop_last()) + match items.last() {
            Some(item) => seq![item.element.ws_element],
            None => Seq::empty(),
        }
    }
}

/// The display node of the item that a pass renders for the key while
/// `waiting` are the old items not taken yet: that of the old item found
/// again, or the node numbered `id` that is made.
pub open spec fn step_id<L, H>(
    waiting: Seq<Option<KeyedElement<L, H>>>,
    key: KeyView,
    id: nat,
) -> u64 {
    match first_holding(waiting, key, 0) {
        Some(at) => waiting[at]->Some_0.element.ws_element,
        None => id as u64,
    }
}

/// The display nodes of the items that a pass renders for the first `count`
/// of `keys`, in their order.
pub open spec fn placed_ids<L, H>(
    old_items: Seq<Option<KeyedElement<L, H>>>,
    keys: Seq<KeyView>,
    count: nat,
    size: nat,
    first: nat,
) -> Seq<u64>
    decreases count,
{
    if count == 0 || count > keys.len() {
        Seq::empty()
    } else {
        placed_ids(old_items, keys, (count - 1) as nat, size, first).push(
            step_id(
                remaining(old_items, keys, (count - 1) as nat),
                keys[count - 1],
                first + created_size(old_items, keys, (count - 1) as nat, size),
            ),
        )
    }
}

/// The nodes of two runs of items are those of the one and then those of
/// the other.
pub proof fn lemma_item_ids_add<L, H>(
    a: Seq<Option<KeyedElement<L, H>>>,
    b: Seq<Option<KeyedElement<L, H>>>,
)
    ensures
        item_ids(a + b) == item_ids(a) + item_ids(b),
    decreases b.len(),
{
    if b.len() == 0 {
        assert(a + b =~= a);
        assert(item_ids(a) + item_ids(b) =~= item_ids(a));
    } else {
        lemma_item_ids_add(a, b.drop_last());
        assert((a + b).drop_last() =~= a + b.drop_last());
        assert((a + b).last() == b.last());
        let tail = match b.last() {
            Some(item) => seq![item.element.ws_element],
            None => Seq::<u64>::empty(),
        };
        assert((item_ids(a) + item_ids(b.drop_last())) + tail =~= item_ids(a) + (item_ids(
            b.drop_last(),
        ) + tail));
    }
}

/// Places of which none is filled hold no node.
pub proof fn lemma_item_ids_none<L, H>(items: Seq<Option<KeyedElement<L, H>>>)
    requires
        forall|i: int| 0 <= i < items.len() ==> items[i] is None,
    ensures
        item_ids(items) == Seq::<u64>::empty(),
    decreases items.len(),
{
    if items.len() > 0 {
        assert forall|i: int| 0 <= i < items.drop_last().len() implies items.drop_last()[i]
            is None by {
            assert(items.drop_last()[i] == items[i]);
        }
        lemma_item_ids_none(items.drop_last());
        assert(items.last() == items[items.len() - 1]);
        assert(item_ids(items) =~= Seq::<u64>::empty());
    }
}

/// The nodes of one place.
pub proof fn lemma_item_ids_one<L, H>(slot: Option<KeyedElement<L, H>>)
    ensures
        item_ids(seq![slot]) == match slot {
            Some(item) => seq![item.element.ws_element],
            None => Seq::<u64>::empty(),
        },
{
    assert(seq![slot].drop_last() =~= Seq::<Option<KeyedElement<L, H>>>::empty());
    assert(seq![slot].last() == slot);
    assert(item_ids(seq![slot].drop_last()) =~= Seq::<u64>::empty());
    let tail = match slot {
        Some(item) => seq![item.element.ws_element],
        None => Seq::<u64>::empty(),
    };
    assert(Seq::<u64>::empty() + tail =~= tail);
}

/// The nodes of the items are those before a place, that of the place, and
/// those after it; an item that is taken leaves the others.
pub proof fn lemma_item_ids_split<L, H>(items: Seq<Option<KeyedElement<L, H>>>, at: int)
    requires
        0 <= at < items.len(),
    ensures
        item_ids(items) == item_ids(items.subrange(0, at)) + item_ids(seq![items[at]]) + item_ids(
            items.subrange(at + 1, items.len() as int),
        ),
        item_ids(items.update(at, None)) == item_ids(items.subrange(0, at)) + item_ids(
            items.subrange(at + 1, items.len() as int),
        ),
{
    let a = items.subrange(0, at);
    let b = items.subrange(at + 1, items.len() as int);
    assert(items =~= a + seq![items[at]] + b);
    lemma_item_ids_add(a + seq![items[at]], b);
    lemma_item_ids_add(a, seq![items[at]]);
    let none: Option<KeyedElement<L, H>> = None;
    assert(items.update(at, None) =~= a + seq![none] + b);
    lemma_item_ids_add(a + seq![none], b);
    lemma_item_ids_add(a, seq![none]);
    lemma_item_ids_one(none);
    assert(item_ids(a) + Seq::<u64>::empty() + item_ids(b) =~= item_ids(a) + item_ids(b));
}

/// The first filled place is filled, and no place before it is.
pub proof fn lemma_first_filled_is<L, H>(items: Seq<Option<KeyedElement<L, H>>>, from: int)
    requires
        0 <= from <= items.len(),
    ensures
        from <= first_filled(items, from) <= items.len(),
        forall|k: int| from <= k < first_filled(items, from) ==> items[k] is None,
        first_filled(items, from) < items.len() ==> items[first_filled(items, from)] is Some,
    decreases items.len() - from,
{
    if from < items.len() && !(items[from] is Some) {
        lemma_first_filled_is(items, from + 1);
    }
}

/// Operations that make nodes, and operations on another parent with nodes
/// that are not among the children, leave the children as they are.
pub open spec fn elsewhere(op: DomOpView, parent: u64, limit: nat) -> bool {
    match op {
        DomOpView::InsertBefore { parent: p, child, next_sibling } => p != parent && child
            >= limit,
        DomOpView::RemoveChild { parent: p, child } => p != parent,
        _ => true,
    }
}

/// Whether every one of the operations happens elsewhere.
pub open spec fn all_elsewhere(ops: Seq<DomOpView>, parent: u64, limit: nat) -> bool {
    forall|i: int| 0 <= i < ops.len() ==> elsewhere(#[trigger] ops[i], parent, limit)
}

/// Two runs of operations that happen elsewhere make one.
pub proof fn lemma_all_elsewhere_add(
    a: Seq<DomOpView>,
    b: Seq<DomOpView>,
    parent: u64,
    limit: nat,
)
    requires
        all_elsewhere(a, parent, limit),
        all_elsewhere(b, parent, limit),
    ensures
        all_elsewhere(a + b, parent, limit),
{
    assert forall|i: int| 0 <= i < (a + b).len() implies elsewhere(
        #[trigger] (a + b)[i],
        parent,
        limit,
    ) by {
        if i < a.len() {
            assert((a + b)[i] == a[i]);
        } else {
            assert((a + b)[i] == b[i - a.len()]);
        }
    }
}

/// A run of operations that all happen elsewhere leaves the children as
/// they are.
pub proof fn lemma_elsewhere(children: Seq<u64>, ops: Seq<DomOpView>, parent: u64, limit: nat)
    requires
        settled(children, parent, limit),
        all_elsewhere(ops, parent, limit),
    ensures
        apply_ops(children, ops, parent) == children,
    decreases ops.len(),
{
    if ops.len() > 0 {
        assert forall|i: int| 0 <= i < ops.drop_last().len() implies elsewhere(
            #[trigger] ops.drop_last()[i],
            parent,
            limit,
        ) by {
            assert(ops.drop_last()[i] == ops[i]);
        }
        lemma_elsewhere(children, ops.drop_last(), parent, limit);
        let op = ops.last();
        assert(elsewhere(ops[ops.len() - 1], parent, limit));
        match op {
            DomOpView::InsertBefore { parent: p, child, next_sibling } => {
                assert forall|i: int| 0 <= i < children.len() implies children[i] != child by {
                    assert(children[i] < limit);
                }
                lemma_without_absent(children, child);
            },
            _ => {},
        }
    }
}

/// The copies of nodes are put under their own new parent.
pub proof fn lemma_copies_append_elsewhere<L, H>(
    sources: Seq<Node<L, H>>,
    first: nat,
    count: nat,
    under: u64,
    parent: u64,
    limit: nat,
)
    requires
        count <= sources.len(),
        limit <= first,
        limit <= under,
        first + nodes_copy_size(sources, count) <= u64::MAX,
        parent < limit,
    ensures
        all_elsewhere(copies_append_ops(sources, first, count, under), parent, limit),
    decreases count,
{
    if count > 0 {
        lemma_copy_size_grows(sources, (count - 1) as nat, count);
        lemma_copies_append_elsewhere(sources, first, (count - 1) as nat, under, parent, limit);
        let op = DomOpView::InsertBefore {
            parent: under,
            child: (first + nodes_copy_size(sources, (count - 1) as nat)) as u64,
            next_sibling: None,
        };
        assert(elsewhere(op, parent, limit));
        assert(all_elsewhere(seq![op], parent, limit));
        lemma_all_elsewhere_add(
            copies_append_ops(sources, first, (count - 1) as nat, under),
            seq![op],
            parent,
            limit,
        );
    }
}

/// Making a copy of a node happens elsewhere: every operation of it makes a
/// node or puts a new node under a new node.
pub proof fn lemma_node_copy_elsewhere<L, H>(
    source: Node<L, H>,
    first: nat,
    parent: u64,
    limit: nat,
)
    requires
        limit <= first,
        first + node_copy_size(source) <= u64::MAX,
        parent < limit,
    ensures
        all_elsewhere(node_copy_ops(source, first), parent, limit),
    decreases source,
{
    match source {
        Node::Element(e) => {
            lemma_nodes_copy_elsewhere(e.nodes.0@, first + 1, e.nodes.0@.len(), parent, limit);
            lemma_copies_append_elsewhere(
                e.nodes.0@,
                first + 1,
                e.nodes.0@.len(),
                first as u64,
                parent,
                limit,
            );
            let made = seq![DomOpView::CloneNode { source: e.ws_element, node: first as u64 }];
            assert(all_elsewhere(made, parent, limit));
            lemma_all_elsewhere_add(
                made,
                nodes_copy_ops(e.nodes.0@, first + 1, e.nodes.0@.len()),
                parent,
                limit,
            );
            lemma_all_elsewhere_add(
                made + nodes_copy_ops(e.nodes.0@, first + 1, e.nodes.0@.len()),
                copies_append_ops(e.nodes.0@, first + 1, e.nodes.0@.len(), first as u64),
                parent,
                limit,
            );
        },
        _ => {},
    }
}

/// Making copies of nodes happens elsewhere.
pub proof fn lemma_nodes_copy_elsewhere<L, H>(
    sources: Seq<Node<L, H>>,
    first: nat,
    count: nat,
    parent: u64,
    limit: nat,
)
    requires
        count <= sources.len(),
        limit <= first,
        first + nodes_copy_size(sources, count) <= u64::MAX,
        parent < limit,
    ensures
        all_elsewhere(nodes_copy_ops(sources, first, count), parent, limit),
    decreases sources, count,
{
    if count > 0 {
        lemma_nodes_copy_elsewhere(sources, first, (count - 1) as nat, parent, limit);
        lemma_node_copy_elsewhere(
            sources[count - 1],
            first + nodes_copy_size(sources, (count - 1) as nat),
            parent,
            limit,
        );
        lemma_all_elsewhere_add(
            nodes_copy_ops(sources, first, (count - 1) as nat),
            node_copy_ops(
                sources[count - 1],
                first + nodes_copy_size(sources, (count - 1) as nat),
            ),
            parent,
            limit,
        );
    }
}

/// A child that is moved ahead leaves the children all different and below
/// the same limit.
pub proof fn lemma_move_ahead_settled(
    before: Seq<u64>,
    ahead: Seq<u64>,
    child: u64,
    after: Seq<u64>,
    parent: u64,
    limit: nat,
)
    requires
        settled(before + ahead + seq![child] + after, parent, limit),
    ensures
        settled(before + seq![child] + ahead + after, parent, limit),
{
    let was = before + ahead + seq![child] + after;
    let now = before + seq![child] + ahead + after;
    let place = |i: int|
        if i < before.len() {
            i
        } else if i == before.len() {
            (before.len() + ahead.len()) as int
        } else if i <= before.len() + ahead.len() {
            i - 1
        } else {
            i
        };
    assert forall|i: int| 0 <= i < now.len() implies now[i] == was[place(i)] && 0 <= place(i)
        < was.len() by {}
    assert forall|i: int, j: int| 0 <= i < now.len() && 0 <= j < now.len() && i != j implies now[i]
        != now[j] by {
        assert(now[i] == was[place(i)]);
        assert(now[j] == was[place(j)]);
        assert(place(i) != place(j));
    }
    assert forall|i: int| 0 <= i < now.len() implies now[i] < limit by {
        assert(now[i] == was[place(i)]);
    }
}

/// One item of a render pass, seen on the display. Where the children of
/// the parent are `before`, then the old items that wait, then `after`,
/// rendering the item of the key leaves them as `before`, the item, the old
/// items that still wait, and `after`.
pub proof fn lemma_step_order<L, H>(
    before: Seq<u64>,
    after: Seq<u64>,
    waiting: Seq<Option<KeyedElement<L, H>>>,
    key: KeyView,
    place: Placement<L, H>,
    id: nat,
)
    requires
        settled(before + item_ids(waiting) + after, place.parent, id),
        follows(after, place.next_sibling),
        first_holding(waiting, key, 0) is None ==> id + item_size(place.pattern) <= u64::MAX,
    ensures
        ({
            let still = match first_holding(waiting, key, 0) {
                Some(at) => waiting.update(at, None),
                None => waiting,
            };
            let limit = if first_holding(waiting, key, 0) is None {
                id + item_size(place.pattern)
            } else {
                id
            };
            &&& apply_ops(
                before + item_ids(waiting) + after,
                step_ops(waiting, key, place, id),
                place.parent,
            ) == before + seq![step_id(waiting, key, id)] + item_ids(still) + after
            &&& settled(
                before + seq![step_id(waiting, key, id)] + item_ids(still) + after,
                place.parent,
                limit,
            )
        }),
{
    let parent = place.parent;
    let ids = item_ids(waiting);
    let children = before + ids + after;
    let head = first_filled(waiting, 0);
    lemma_first_filled_is(waiting, 0);
    lemma_first_holding_holds(waiting, key, 0);
    match first_holding(waiting, key, 0) {
        Some(at) => {
            let child = waiting[at]->Some_0.element.ws_element;
            let still = waiting.update(at, None);
            let a = item_ids(waiting.subrange(0, at));
            let b = item_ids(waiting.subrange(at + 1, waiting.len() as int));
            lemma_item_ids_split(waiting, at);
            lemma_item_ids_one(waiting[at]);
            assert(ids == a + seq![child] + b);
            assert(item_ids(still) == a + b);
            assert(head <= at);
            if at == head {
                let lead = waiting.subrange(0, at);
                assert forall|k: int| 0 <= k < lead.len() implies lead[k] is None by {
                    assert(lead[k] == waiting[k]);
                }
                lemma_item_ids_none(lead);
                assert(step_ops(waiting, key, place, id) =~= Seq::<DomOpView>::empty());
                assert(before + seq![child] + (a + b) + after =~= before + (a + seq![child] + b)
                    + after);
            } else {
                // the first that waits stands ahead of the item that is found
                let lead = waiting.subrange(0, at);
                assert(lead[head] == waiting[head]);
                lemma_item_ids_split(lead, head);
                lemma_item_ids_one(lead[head]);
                assert forall|k: int| 0 <= k < lead.subrange(0, head).len() implies lead.subrange(
                    0,
                    head,
                )[k] is None by {
                    assert(lead.subrange(0, head)[k] == waiting[k]);
                }
                lemma_item_ids_none(lead.subrange(0, head));
                let first = waiting[head]->Some_0.element.ws_element;
                assert(a == Seq::<u64>::empty() + seq![first] + item_ids(
                    lead.subrange(head + 1, lead.len() as int),
                ));
                assert(a.len() > 0 && a[0] == first);
                assert(anchor(waiting, place.next_sibling) == Some(first));
                let op = DomOpView::InsertBefore { parent, child, next_sibling: Some(first) };
                assert(step_ops(waiting, key, place, id) =~= seq![op]);
                lemma_apply_one(children, op, parent);
                assert(children =~= before + a + seq![child] + (b + after));
                lemma_move_ahead(before, a, child, b + after, parent);
                lemma_move_ahead_settled(before, a, child, b + after, parent, id);
                assert(before + seq![child] + a + (b + after) =~= before + seq![child] + (a + b)
                    + after);
            }
        },
        None => {
            let size = item_size(place.pattern);
            let child = id as u64;
            let made = item_ops(place.pattern, place.ns, place.tag, id);
            let put = DomOpView::InsertBefore {
                parent,
                child,
                next_sibling: anchor(waiting, place.next_sibling),
            };
            match place.pattern {
                Some(e) => {
                    lemma_node_copy_elsewhere(Node::Element(e), id, parent, id);
                },
                None => {
                    assert(all_elsewhere(made, parent, id));
                },
            }
            assert(size >= 1);
            lemma_elsewhere(children, made, parent, id);
            lemma_apply_ops_add(children, made, seq![put], parent);
            lemma_apply_one(children, put, parent);
            assert forall|i: int| 0 <= i < children.len() implies children[i] != child by {
                assert(children[i] < id);
            }
            if head < waiting.len() {
                lemma_item_ids_split(waiting, head);
                lemma_item_ids_one(waiting[head]);
                let lead = waiting.subrange(0, head);
                assert forall|k: int| 0 <= k < lead.len() implies lead[k] is None by {
                    assert(lead[k] == waiting[k]);
                }
                lemma_item_ids_none(lead);
                let first = waiting[head]->Some_0.element.ws_element;
                assert(ids == Seq::<u64>::empty() + seq![first] + item_ids(
                    waiting.subrange(head + 1, waiting.len() as int),
                ));
                assert(ids.len() > 0 && ids[0] == first);
                assert(children =~= before + (ids + after));
                lemma_put_new(before, ids + after, child, parent, Some(first));
                assert(before + seq![child] + (ids + after) =~= before + seq![child] + ids
                    + after);
            } else {
                lemma_item_ids_none(waiting);
                assert(children =~= before + after);
                lemma_put_new(before, after, child, parent, place.next_sibling);
                assert(before + seq![child] + after =~= before + seq![child] + ids + after);
            }
            let now = before + seq![child] + ids + after;
            let spot = |i: int|
                if i < before.len() {
                    i
                } else {
                    i - 1
                };
            assert forall|i: int| 0 <= i < now.len() && i != before.len() implies now[i]
                == children[spot(i)] && 0 <= spot(i) < children.len() by {}
            assert(now[before.len() as int] == child);
            assert forall|i: int, j: int| 0 <= i < now.len() && 0 <= j < now.len() && i
                != j implies now[i] != now[j] by {
                if i != before.len() {
                    assert(now[i] == children[spot(i)]);
                }
                if j != before.len() {
                    assert(now[j] == children[spot(j)]);
                }
            }
            assert forall|i: int| 0 <= i < now.len() implies now[i] < id + size by {
                if i != before.len() {
                    assert(now[i] == children[spot(i)]);
                }
            }
        },
    }
}

/// The items of a render pass, seen on the display: after the first `count`
/// keys are rendered, the children of the parent are what stood before the
/// list, the items rendered so far in the order of their keys, the old
/// items that still wait, and what stood after the list.
pub proof fn lemma_place_order<L, H>(
    before: Seq<u64>,
    after: Seq<u64>,
    old_items: Seq<Option<KeyedElement<L, H>>>,
    keys: Seq<KeyView>,
    count: nat,
    place: Placement<L, H>,
    first: nat,
)
    requires
        settled(before + item_ids(old_items) + after, place.parent, first),
        follows(after, place.next_sibling),
        count <= keys.len(),
        first + created_size(old_items, keys, count, item_size(place.pattern)) <= u64::MAX,
    ensures
        apply_ops(
            before + item_ids(old_items) + after,
            place_ops(old_items, keys, count, place, first),
            place.parent,
        ) == before + placed_ids(old_items, keys, count, item_size(place.pattern), first)
            + item_ids(remaining(old_items, keys, count)) + after,
        settled(
            before + placed_ids(old_items, keys, count, item_size(place.pattern), first)
                + item_ids(remaining(old_items, keys, count)) + after,
            place.parent,
            first + created_size(old_items, keys, count, item_size(place.pattern)),
        ),
    decreases count,
{
    let size = item_size(place.pattern);
    let children = before + item_ids(old_items) + after;
    if count == 0 {
        assert(before + placed_ids(old_items, keys, count, size, first) =~= before);
    } else {
        let fewer = (count - 1) as nat;
        lemma_place_order(before, after, old_items, keys, fewer, place, first);
        let placed = placed_ids(old_items, keys, fewer, size, first);
        let waiting = remaining(old_items, keys, fewer);
        let id = first + created_size(old_items, keys, fewer, size);
        let key = keys[count - 1];
        lemma_step_order(before + placed, after, waiting, key, place, id);
        lemma_apply_ops_add(
            children,
            place_ops(old_items, keys, fewer, place, first),
            step_ops(waiting, key, place, id),
            place.parent,
        );
        assert(before + placed + seq![step_id(waiting, key, id)] =~= before + placed.push(
            step_id(waiting, key, id),
        ));
    }
}

/// The end of a render pass, seen on the display: taking the first `count`
/// of the old items that still wait away leaves the others where they are.
pub proof fn lemma_clear_order<L, H>(
    before: Seq<u64>,
    after: Seq<u64>,
    items: Seq<Option<KeyedElement<L, H>>>,
    count: nat,
    parent: u64,
)
    requires
        (before + item_ids(items) + after).no_duplicates(),
        count <= items.len(),
    ensures
        apply_ops(
            before + item_ids(items) + after,
            keyed_clear_ops(items, count, parent),
            parent,
        ) == before + item_ids(items.subrange(count as int, items.len() as int)) + after,
        (before + item_ids(items.subrange(count as int, items.len() as int))
            + after).no_duplicates(),
    decreases count,
{
    let children = before + item_ids(items) + after;
    if count == 0 {
        assert(items.subrange(0, items.len() as int) =~= items);
    } else {
        let fewer = (count - 1) as nat;
        lemma_clear_order(before, after, items, fewer, parent);
        let from = items.subrange(fewer as int, items.len() as int);
        let rest = items.subrange(count as int, items.len() as int);
        assert(from =~= seq![items[fewer as int]] + rest);
        lemma_item_ids_add(seq![items[fewer as int]], rest);
        lemma_item_ids_one(items[fewer as int]);
        let was = before + item_ids(from) + after;
        match items[fewer as int] {
            Some(item) => {
                let child = item.element.ws_element;
                let op = DomOpView::RemoveChild { parent, child };
                lemma_apply_ops_add(
                    children,
                    keyed_clear_ops(items, fewer, parent),
                    seq![op],
                    parent,
                );
                lemma_apply_one(was, op, parent);
                assert(was =~= before + seq![child] + (item_ids(rest) + after));
                lemma_take_away(before, child, item_ids(rest) + after);
                lemma_distinct_parts(before, child, item_ids(rest) + after);
                assert(before + (item_ids(rest) + after) =~= before + item_ids(rest) + after);
            },
            None => {
                assert(keyed_clear_ops(items, count, parent) =~= keyed_clear_ops(
                    items,
                    fewer,
                    parent,
                ));
                assert(Seq::<u64>::empty() + item_ids(rest) =~= item_ids(rest));
            },
        }
    }
}

/// A whole render pass of a keyed list, seen on the display. Where the
/// children of the parent are what stands before the list, the elements of
/// the old items in their order, and what stands after the list, a pass
/// leaves them as what stood before, the elements of the new items in the
/// order of their keys, and what stood after. Nothing else is moved and no
/// old element is left behind.
pub proof fn lemma_reconcile_order<L, H>(
    before: Seq<u64>,
    after: Seq<u64>,
    old_items: Seq<Option<KeyedElement<L, H>>>,
    keys: Seq<KeyView>,
    place: Placement<L, H>,
    first: nat,
)
    requires
        settled(before + item_ids(old_items) + after, place.parent, first),
        follows(after, place.next_sibling),
        first + created_size(old_items, keys, keys.len(), item_size(place.pattern)) <= u64::MAX,
    ensures
        apply_ops(
            before + item_ids(old_items) + after,
            place_ops(old_items, keys, keys.len(), place, first) + keyed_clear_ops(
                remaining(old_items, keys, keys.len()),
                old_items.len(),
                place.parent,
            ),
            place.parent,
        ) == before + placed_ids(old_items, keys, keys.len(), item_size(place.pattern), first)
            + after,
{
    let size = item_size(place.pattern);
    let children = before + item_ids(old_items) + after;
    let placed = placed_ids(old_items, keys, keys.len(), size, first);
    let waiting = remaining(old_items, keys, keys.len());
    lemma_place_order(before, after, old_items, keys, keys.len(), place, first);
    lemma_remaining_len(old_items, keys, keys.len());
    lemma_clear_order(before + placed, after, waiting, waiting.len(), place.parent);
    lemma_apply_ops_add(
        children,
        place_ops(old_items, keys, keys.len(), place, first),
        keyed_clear_ops(waiting, old_items.len(), place.parent),
        place.parent,
    );
    assert(waiting.subrange(waiting.len() as int, waiting.len() as int) =~= Seq::<
        Option<KeyedElement<L, H>>,
    >::empty());
    assert(before + placed + Seq::<u64>::empty() + after =~= before + placed + after);
}

/// The element that a pass has put at a place stands for the display node
/// that the pass has put there.
pub proof fn lemma_placed_id<L, H>(
    slot: Option<KeyedElement<L, H>>,
    status: ElementStatus,
    key: KeyView,
    waiting: Seq<Option<KeyedElement<L, H>>>,
    place: Placement<L, H>,
    id: nat,
)
    requires
        placed_as(slot, status, key, waiting, place, id),
        id <= u64::MAX,
    ensures
        slot is Some,
        slot->Some_0.element.ws_element == step_id(waiting, key, id),
{
}

/// The display node that a pass puts at the place `at`.
pub proof fn lemma_placed_ids_at<L, H>(
    old_items: Seq<Option<KeyedElement<L, H>>>,
    keys: Seq<KeyView>,
    count: nat,
    size: nat,
    first: nat,
    at: int,
)
    requires
        0 <= at < count <= keys.len(),
    ensures
        placed_ids(old_items, keys, count, size, first).len() == count,
        placed_ids(old_items, keys, count, size, first)[at] == step_id(
            remaining(old_items, keys, at as nat),
            keys[at],
            first + created_size(old_items, keys, at as nat, size),
        ),
    decreases count,
{
    lemma_placed_ids_len(old_items, keys, count, size, first);
    if at < count - 1 {
        lemma_placed_ids_at(old_items, keys, (count - 1) as nat, size, first, at);
    } else {
        lemma_placed_ids_len(old_items, keys, (count - 1) as nat, size, first);
    }
}

/// A pass puts one display node in place for each key.
pub proof fn lemma_placed_ids_len<L, H>(
    old_items: Seq<Option<KeyedElement<L, H>>>,
    keys: Seq<KeyView>,
    count: nat,
    size: nat,
    first: nat,
)
    requires
        count <= keys.len(),
    ensures
        placed_ids(old_items, keys, count, size, first).len() == count,
    decreases count,
{
    if count > 0 {
        lemma_placed_ids_len(old_items, keys, (count - 1) as nat, size, first);
    }
}

/// After a render pass the items of the list stand for the display nodes
/// that the pass has put in place, in their order: the display shows the
/// list as the list remembers it, which is what the next pass starts from.
pub proof fn lemma_reconciled_items<L, H>(
    items: Seq<Option<KeyedElement<L, H>>>,
    statuses: Seq<ElementStatus>,
    old_items: Seq<Option<KeyedElement<L, H>>>,
    keys: Seq<KeyView>,
    count: nat,
    place: Placement<L, H>,
    first: nat,
)
    requires
        count <= keys.len(),
        count <= items.len(),
        count <= statuses.len(),
        first + created_size(old_items, keys, count, item_size(place.pattern)) <= u64::MAX,
        forall|i: int|
            0 <= i < count ==> placed_as(
                #[trigger] items[i],
                statuses[i],
                keys[i],
                remaining(old_items, keys, i as nat),
                place,
                first + created_size(old_items, keys, i as nat, item_size(place.pattern)),
            ),
    ensures
        item_ids(items.subrange(0, count as int)) == placed_ids(
            old_items,
            keys,
            count,
            item_size(place.pattern),
            first,
        ),
    decreases count,
{
    let size = item_size(place.pattern);
    if count == 0 {
        assert(items.subrange(0, 0) =~= Seq::<Option<KeyedElement<L, H>>>::empty());
    } else {
        let fewer = (count - 1) as nat;
        super::keyed_list::lemma_created_size_grows(old_items, keys, fewer, count, size);
        lemma_reconciled_items(items, statuses, old_items, keys, fewer, place, first);
        let slot = items[fewer as int];
        assert(placed_as(
            slot,
            statuses[fewer as int],
            keys[fewer as int],
            remaining(old_items, keys, fewer),
            place,
            first + created_size(old_items, keys, fewer, size),
        ));
        assert(items.subrange(0, count as int) =~= items.subrange(0, fewer as int) + seq![slot]);
        lemma_item_ids_add(items.subrange(0, fewer as int), seq![slot]);
        lemma_item_ids_one(slot);
        assert(placed_ids(old_items, keys, fewer, size, first) + seq![
            slot->Some_0.element.ws_element,
        ] =~= placed_ids(old_items, keys, fewer, size, first).push(
            slot->Some_0.element.ws_element,
        ));
    }
}

/// The display nodes that a slot of a node store has under the parent: an
/// element or a text itself; the nested nodes of a fragment and then its
/// marker; the elements of the items of a keyed list. A mounted component
/// has none of its own.
pub open spec fn shown<L, H>(node: Node<L, H>) -> Seq<u64>
    decreases node,
{
    match node {
        Node::Element(e) => seq![e.ws_element],
        Node::Text(t) => seq![t.ws_node],
        Node::GroupedNodes(g) => all_shown(g.nodes.0@, g.nodes.0@.len()) + seq![g.end_flag_node],
        Node::KeyedList(l) => item_ids(l.active@),
        Node::ComponentHandle(_) => Seq::empty(),
    }
}

/// The display nodes that the first `count` slots have under the parent, in
/// their order.
pub open spec fn all_shown<L, H>(nodes: Seq<Node<L, H>>, count: nat) -> Seq<u64>
    decreases nodes, count,
{
    if count == 0 || count > nodes.len() {
        Seq::empty()
    } else {
        all_shown(nodes, (count - 1) as nat) + shown(nodes[count - 1])
    }
}

/// A node that is made and put before what follows comes to stand there:
/// behind everything that its parent showed before that place.
pub proof fn lemma_new_node_order(
    before: Seq<u64>,
    after: Seq<u64>,
    made: DomOpView,
    id: nat,
    parent: u64,
    next_sibling: Option<u64>,
)
    requires
        settled(before + after, parent, id),
        follows(after, next_sibling),
        id <= u64::MAX,
        made is CreateElement || made is CreateText || made is CreateMarker,
    ensures
        apply_ops(
            before + after,
            seq![made, DomOpView::InsertBefore { parent, child: id as u64, next_sibling }],
            parent,
        ) == before + seq![id as u64] + after,
{
    let children = before + after;
    let put = DomOpView::InsertBefore { parent, child: id as u64, next_sibling };
    assert(seq![made, put] =~= seq![made] + seq![put]);
    lemma_apply_ops_add(children, seq![made], seq![put], parent);
    lemma_apply_one(children, made, parent);
    lemma_apply_one(children, put, parent);
    assert forall|i: int| 0 <= i < children.len() implies children[i] != id as u64 by {
        assert(children[i] < id);
    }
    lemma_put_new(before, after, id as u64, parent, next_sibling);
}

/// A new element, a new text and the marker of a new fragment come to stand
/// before what follows them, behind what the parent showed before.
pub proof fn lemma_new_slot_order(
    before: Seq<u64>,
    after: Seq<u64>,
    id: nat,
    ns: Option<Seq<char>>,
    name: Seq<char>,
    parent: u64,
    next_sibling: Option<u64>,
)
    requires
        settled(before + after, parent, id),
        follows(after, next_sibling),
        id <= u64::MAX,
    ensures
        apply_ops(before + after, new_element_ops(id, ns, name, parent, next_sibling), parent)
            == before + seq![id as u64] + after,
        apply_ops(before + after, new_text_ops(id, name, parent, next_sibling), parent) == before
            + seq![id as u64] + after,
        apply_ops(before + after, new_group_ops(id, parent, next_sibling), parent) == before
            + seq![id as u64] + after,
{
    lemma_new_node_order(
        before,
        after,
        DomOpView::CreateElement { node: id as u64, namespace: ns, tag: name },
        id,
        parent,
        next_sibling,
    );
    lemma_new_node_order(
        before,
        after,
        DomOpView::CreateText { node: id as u64, text: name },
        id,
        parent,
        next_sibling,
    );
    lemma_new_node_order(
        before,
        after,
        DomOpView::CreateMarker { node: id as u64 },
        id,
        parent,
        next_sibling,
    );
}

/// A list item that is made as a copy comes to stand before what follows
/// it, behind what the parent showed before.
pub proof fn lemma_copied_item_order<L, H>(
    before: Seq<u64>,
    after: Seq<u64>,
    source: Node<L, H>,
    id: nat,
    parent: u64,
    next_sibling: Option<u64>,
)
    requires
        settled(before + after, parent, id),
        follows(after, next_sibling),
        id + node_copy_size(source) <= u64::MAX,
    ensures
        apply_ops(
            before + after,
            node_copy_ops(source, id) + seq![
                DomOpView::InsertBefore { parent, child: id as u64, next_sibling },
            ],
            parent,
        ) == before + seq![id as u64] + after,
{
    let children = before + after;
    let put = DomOpView::InsertBefore { parent, child: id as u64, next_sibling };
    lemma_node_copy_elsewhere(source, id, parent, id);
    lemma_elsewhere(children, node_copy_ops(source, id), parent, id);
    lemma_apply_ops_add(children, node_copy_ops(source, id), seq![put], parent);
    lemma_apply_one(children, put, parent);
    assert forall|i: int| 0 <= i < children.len() implies children[i] != id as u64 by {
        assert(children[i] < id);
    }
    lemma_put_new(before, after, id as u64, parent, next_sibling);
}

/// Taking a slot away takes every display node that it shows away from
/// under the parent, and leaves the others in their order.
pub proof fn lemma_node_clear_order<L, H>(
    before: Seq<u64>,
    after: Seq<u64>,
    node: Node<L, H>,
    parent: u64,
)
    requires
        (before + shown(node) + after).no_duplicates(),
    ensures
        apply_ops(before + shown(node) + after, node_clear_ops(node, parent), parent) == before
            + after,
        (before + after).no_duplicates(),
    decreases node,
{
    let children = before + shown(node) + after;
    match node {
        Node::Element(e) => {
            lemma_apply_one(
                children,
                DomOpView::RemoveChild { parent, child: e.ws_element },
                parent,
            );
            lemma_take_away(before, e.ws_element, after);
            lemma_distinct_parts(before, e.ws_element, after);
        },
        Node::Text(t) => {
            lemma_apply_one(children, DomOpView::RemoveChild { parent, child: t.ws_node }, parent);
            lemma_take_away(before, t.ws_node, after);
            lemma_distinct_parts(before, t.ws_node, after);
        },
        Node::GroupedNodes(g) => {
            let nested = all_shown(g.nodes.0@, g.nodes.0@.len());
            let marker = g.end_flag_node;
            let op = DomOpView::RemoveChild { parent, child: marker };
            assert(children =~= before + nested + (seq![marker] + after));
            lemma_nodes_clear_order(
                before,
                seq![marker] + after,
                g.nodes.0@,
                g.nodes.0@.len(),
                parent,
            );
            lemma_apply_ops_add(
                children,
                nodes_clear_ops(g.nodes.0@, g.nodes.0@.len(), parent),
                seq![op],
                parent,
            );
            let left = before + (seq![marker] + after);
            lemma_apply_one(left, op, parent);
            assert(left =~= before + seq![marker] + after);
            lemma_take_away(before, marker, after);
            lemma_distinct_parts(before, marker, after);
        },
        Node::KeyedList(l) => {
            lemma_clear_order(before, after, l.active@, l.active@.len(), parent);
            assert(l.active@.subrange(l.active@.len() as int, l.active@.len() as int) =~= Seq::<
                Option<KeyedElement<L, H>>,
            >::empty());
            assert(before + Seq::<u64>::empty() + after =~= before + after);
        },
        Node::ComponentHandle(_) => {
            assert(children =~= before + after);
        },
    }
}

/// Taking the first `count` slots away takes every display node that they
/// show away from under the parent, and leaves the others in their order.
pub proof fn lemma_nodes_clear_order<L, H>(
    before: Seq<u64>,
    after: Seq<u64>,
    nodes: Seq<Node<L, H>>,
    count: nat,
    parent: u64,
)
    requires
        (before + all_shown(nodes, count) + after).no_duplicates(),
        count <= nodes.len(),
    ensures
        apply_ops(
            before + all_shown(nodes, count) + after,
            nodes_clear_ops(nodes, count, parent),
            parent,
        ) == before + after,
        (before + after).no_duplicates(),
    decreases nodes, count,
{
    let children = before + all_shown(nodes, count) + after;
    if count == 0 {
        assert(children =~= before + after);
    } else {
        let fewer = (count - 1) as nat;
        let last = nodes[count - 1];
        // the slots before the last go first, while the last still stands
        assert(children =~= before + all_shown(nodes, fewer) + (shown(last) + after));
        lemma_nodes_clear_order(before, shown(last) + after, nodes, fewer, parent);
        lemma_apply_ops_add(
            children,
            nodes_clear_ops(nodes, fewer, parent),
            node_clear_ops(last, parent),
            parent,
        );
        assert(before + (shown(last) + after) =~= before + shown(last) + after);
        lemma_node_clear_order(before, after, last, parent);
    }
}

} // verus!
