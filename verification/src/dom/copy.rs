//! Copies: a new list item is made as a copy of an item that is there, node
//! by node, and then differs from it only in what the render function
//! changes.

use crate::dom::attributes::AttributeView;
use crate::dom::document::Document;
use crate::dom::document::DomOp;
use crate::dom::document::DomOpView;
use crate::dom::element::Element;
use crate::dom::element::TextNode;
use crate::dom::nodes::GroupedNodes;
use crate::dom::nodes::Node;
use crate::dom::nodes::Nodes;
use crate::dom::nodes::node_append_ops;
use crate::dom::nodes::nodes_append_ops;
use vstd::prelude::*;

verus! {

/// Whether a node can be copied: an element whose children can, a text, a
/// fragment. A keyed list and a mounted component cannot.
pub open spec fn node_copyable<L, H>(node: Node<L, H>) -> bool
    decreases node,
{
    match node {
        Node::Element(e) => nodes_copyable(e.nodes.0@, e.nodes.0@.len()),
        Node::Text(_) => true,
        Node::GroupedNodes(_) => true,
        Node::KeyedList(_) => false,
        Node::ComponentHandle(_) => false,
    }
}

/// Whether the first `count` of `nodes` can be copied.
pub open spec fn nodes_copyable<L, H>(nodes: Seq<Node<L, H>>, count: nat) -> bool
    decreases nodes, count,
{
    if count == 0 || count > nodes.len() {
        true
    } else {
        nodes_copyable(nodes, (count - 1) as nat) && node_copyable(nodes[count - 1])
    }
}

/// The number of display nodes that a copy of a node is made of: an element
/// and the copies of its children; one text; the marker of a fragment, which
/// is copied empty.
pub open spec fn node_copy_size<L, H>(node: Node<L, H>) -> nat
    decreases node,
{
    match node {
        Node::Element(e) => 1 + nodes_copy_size(e.nodes.0@, e.nodes.0@.len()),
        _ => 1,
    }
}

/// The number of display nodes that copies of the first `count` of `nodes`
/// are made of.
pub open spec fn nodes_copy_size<L, H>(nodes: Seq<Node<L, H>>, count: nat) -> nat
    decreases nodes, count,
{
    if count == 0 || count > nodes.len() {
        0
    } else {
        nodes_copy_size(nodes, (count - 1) as nat) + node_copy_size(nodes[count - 1])
    }
}

/// Whether `copy` is the copy of `source` whose display nodes are numbered
/// from `first` on, each node before its children and these in their order.
/// A copied element has the kind and the attribute values of its source, and
/// no listener; a copied text has the same text; a copied fragment is empty
/// and has no arm.
pub open spec fn node_is_copy<L, H>(copy: Node<L, H>, source: Node<L, H>, first: nat) -> bool
    decreases source,
{
    match source {
        Node::Element(e) => {
            &&& copy matches Node::Element(c)
            &&& c.ws_element == first
            &&& c.element_type == e.element_type
            &&& c.attributes@ == e.attributes@.map_values(
                |a: AttributeView<L>| a.without_listener(),
            )
            &&& c.nodes.0@.len() == e.nodes.0@.len()
            &&& nodes_are_copies(c.nodes.0@, e.nodes.0@, first + 1, e.nodes.0@.len())
        },
        Node::Text(t) => {
            &&& copy matches Node::Text(c)
            &&& c.ws_node == first
            &&& c.text@ == t.text@
        },
        Node::GroupedNodes(_) => {
            &&& copy matches Node::GroupedNodes(c)
            &&& c.end_flag_node == first
            &&& c.active_index is None
            &&& c.nodes.0@.len() == 0
        },
        Node::KeyedList(_) => false,
        Node::ComponentHandle(_) => false,
    }
}

/// Whether the first `count` of `copies` are the copies of the first `count`
/// of `sources`, numbered from `first` on in their order.
pub open spec fn nodes_are_copies<L, H>(
    copies: Seq<Node<L, H>>,
    sources: Seq<Node<L, H>>,
    first: nat,
    count: nat,
) -> bool
    decreases sources, count,
{
    if count == 0 || count > sources.len() {
        true
    } else {
        &&& nodes_are_copies(copies, sources, first, (count - 1) as nat)
        &&& count <= copies.len()
        &&& node_is_copy(
            copies[count - 1],
            sources[count - 1],
            first + nodes_copy_size(sources, (count - 1) as nat),
        )
    }
}

/// The operations that make the copy of `source` numbered from `first` on:
/// the node itself, then its children, which are then put under it.
pub open spec fn node_copy_ops<L, H>(source: Node<L, H>, first: nat) -> Seq<DomOpView>
    decreases source,
{
    match source {
        Node::Element(e) => seq![DomOpView::CloneNode { source: e.ws_element, node: first as u64 }]
            + nodes_copy_ops(e.nodes.0@, first + 1, e.nodes.0@.len()) + copies_append_ops(
            e.nodes.0@,
            first + 1,
            e.nodes.0@.len(),
            first as u64,
        ),
        Node::Text(t) => seq![DomOpView::CloneNode { source: t.ws_node, node: first as u64 }],
        Node::GroupedNodes(_) => seq![DomOpView::CreateMarker { node: first as u64 }],
        Node::KeyedList(_) => Seq::empty(),
        Node::ComponentHandle(_) => Seq::empty(),
    }
}

/// The operations that make the copies of the first `count` of `sources`,
/// numbered from `first` on, in their order.
pub open spec fn nodes_copy_ops<L, H>(sources: Seq<Node<L, H>>, first: nat, count: nat) -> Seq<
    DomOpView,
>
    decreases sources, count,
{
    if count == 0 || count > sources.len() {
        Seq::empty()
    } else {
        nodes_copy_ops(sources, first, (count - 1) as nat) + node_copy_ops(
            sources[count - 1],
            first + nodes_copy_size(sources, (count - 1) as nat),
        )
    }
}

/// The operations that put the copies of the first `count` of `sources`,
/// numbered from `first` on, last under `parent`, in their order.
pub open spec fn copies_append_ops<L, H>(
    sources: Seq<Node<L, H>>,
    first: nat,
    count: nat,
    parent: u64,
) -> Seq<DomOpView>
    decreases count,
{
    if count == 0 || count > sources.len() {
        Seq::empty()
    } else {
        copies_append_ops(sources, first, (count - 1) as nat, parent) + seq![
            DomOpView::InsertBefore {
                parent,
                child: (first + nodes_copy_size(sources, (count - 1) as nat)) as u64,
                next_sibling: None,
            },
        ]
    }
}

/// Each of the first `count` nodes can be copied where all of them can.
pub proof fn lemma_nodes_copyable_each<L, H>(nodes: Seq<Node<L, H>>, count: nat, at: int)
    requires
        nodes_copyable(nodes, count),
        0 <= at < count <= nodes.len(),
    ensures
        node_copyable(nodes[at]),
    decreases count,
{
    if at < count - 1 {
        lemma_nodes_copyable_each(nodes, (count - 1) as nat, at);
    }
}

/// The copies of fewer nodes are made of no more display nodes.
pub proof fn lemma_copy_size_grows<L, H>(nodes: Seq<Node<L, H>>, fewer: nat, more: nat)
    requires
        fewer <= more <= nodes.len(),
    ensures
        nodes_copy_size(nodes, fewer) <= nodes_copy_size(nodes, more),
    decreases more,
{
    if fewer < more {
        lemma_copy_size_grows(nodes, fewer, (more - 1) as nat);
    }
}

/// Whether nodes are copies depends on the first `count` of them only.
pub proof fn lemma_copies_frame<L, H>(
    copies: Seq<Node<L, H>>,
    others: Seq<Node<L, H>>,
    sources: Seq<Node<L, H>>,
    first: nat,
    count: nat,
)
    requires
        nodes_are_copies(copies, sources, first, count),
        count <= others.len(),
        forall|i: int| 0 <= i < count && i < copies.len() ==> copies[i] == others[i],
    ensures
        nodes_are_copies(others, sources, first, count),
    decreases count,
{
    if !(count == 0 || count > sources.len()) {
        lemma_copies_frame(copies, others, sources, first, (count - 1) as nat);
    }
}

/// Copies are put under a parent by one operation each.
pub proof fn lemma_copies_append<L, H>(
    copies: Seq<Node<L, H>>,
    sources: Seq<Node<L, H>>,
    first: nat,
    count: nat,
    parent: u64,
)
    requires
        nodes_are_copies(copies, sources, first, count),
        count <= sources.len(),
        count <= copies.len(),
        first + nodes_copy_size(sources, count) <= u64::MAX,
    ensures
        nodes_append_ops(copies, count, parent) == copies_append_ops(
            sources,
            first,
            count,
            parent,
        ),
    decreases count,
{
    if count > 0 {
        lemma_copies_append(copies, sources, first, (count - 1) as nat, parent);
        let at = first + nodes_copy_size(sources, (count - 1) as nat);
        let copy = copies[count - 1];
        assert(node_is_copy(copy, sources[count - 1], at));
        assert(at <= u64::MAX);
        let put = seq![
            DomOpView::InsertBefore { parent, child: at as u64, next_sibling: None },
        ];
        match copy {
            Node::Element(e) => {
                assert(node_append_ops(copy, parent) =~= put);
            },
            Node::Text(t) => {
                assert(node_append_ops(copy, parent) =~= put);
            },
            Node::GroupedNodes(g) => {
                assert(nodes_append_ops(g.nodes.0@, 0, parent) =~= Seq::<DomOpView>::empty());
                assert(node_append_ops(copy, parent) =~= put);
            },
            _ => {},
        }
        assert(nodes_append_ops(copies, count, parent) == nodes_append_ops(
            copies,
            (count - 1) as nat,
            parent,
        ) + node_append_ops(copy, parent));
    }
}

/// A copy of an element has as many attribute records as its source and
/// none of them holds a listener: whatever listener the render function
/// declares has to be bound on the copy.
pub proof fn lemma_copy_holds_no_listener<L, H>(
    copy: Element<L, H>,
    source: Element<L, H>,
    first: nat,
)
    requires
        node_is_copy(Node::Element(copy), Node::Element(source), first),
    ensures
        copy.attributes@.len() == source.attributes@.len(),
        forall|i: int|
            0 <= i < copy.attributes@.len()
                ==> !(#[trigger] copy.attributes@[i] matches AttributeView::EventListener(Some(_))),
{
}

impl<L, H> Element<L, H> {
    /// The number of display nodes that a copy of the element is made of,
    /// if the element can be copied and the number fits.
    pub fn copy_size(&self) -> (size: Option<u64>)
        ensures
            match size {
                Some(size) => node_copyable(Node::Element(*self)) && size == node_copy_size(
                    Node::Element(*self),
                ),
                None => !node_copyable(Node::Element(*self)) || node_copy_size(
                    Node::Element(*self),
                ) > u64::MAX,
            },
    {
        match self.nodes.copy_size() {
            Some(size) => size.checked_add(1),
            None => None,
        }
    }

    /// A copy of the element and of what is under it, made by the display
    /// node by node. The copy has the attribute values of the element and no
    /// listener, and is under no parent yet.
    pub fn clone_with(&self, doc: &mut Document) -> (copy: Element<L, H>)
        requires
            nodes_copyable(self.nodes.0@, self.nodes.0@.len()),
            old(doc).has_room(1 + nodes_copy_size(self.nodes.0@, self.nodes.0@.len())),
        ensures
            node_is_copy(Node::Element(copy), Node::Element(*self), old(doc)@.next_node),
            final(doc).created(
                *old(doc),
                node_copy_size(Node::Element(*self)),
                node_copy_ops(Node::Element(*self), old(doc)@.next_node),
            ),
        decreases *self,
    {
        let ghost before = *doc;
        let ghost first = doc@.next_node;
        let ws_element = doc.new_node();
        doc.record(DomOp::CloneNode { source: self.ws_element, node: ws_element });
        let nodes = self.nodes.clone_with(doc);
        nodes.append_to(ws_element, doc);
        proof {
            lemma_copies_append(
                nodes.0@,
                self.nodes.0@,
                first + 1,
                self.nodes.0@.len(),
                ws_element,
            );
            assert(doc@.ops =~= before@.ops + node_copy_ops(Node::Element(*self), first));
        }
        Element {
            ws_element,
            element_type: self.element_type,
            attributes: self.attributes.clone_without_listeners(),
            nodes,
        }
    }
}

impl<L, H> Node<L, H> {
    /// The number of display nodes that a copy of the node is made of, if
    /// the node can be copied and the number fits.
    pub fn copy_size(&self) -> (size: Option<u64>)
        ensures
            match size {
                Some(size) => node_copyable(*self) && size == node_copy_size(*self),
                None => !node_copyable(*self) || node_copy_size(*self) > u64::MAX,
            },
        decreases *self,
    {
        match self {
            Node::Element(e) => match e.nodes.copy_size() {
                Some(size) => size.checked_add(1),
                None => None,
            },
            Node::Text(_) => Some(1),
            Node::GroupedNodes(_) => Some(1),
            Node::KeyedList(_) => None,
            Node::ComponentHandle(_) => None,
        }
    }

    /// A copy of the node, made by the display node by node, under no parent
    /// yet.
    pub fn clone_with(&self, doc: &mut Document) -> (copy: Node<L, H>)
        requires
            node_copyable(*self),
            old(doc).has_room(node_copy_size(*self)),
        ensures
            node_is_copy(copy, *self, old(doc)@.next_node),
            final(doc).created(
                *old(doc),
                node_copy_size(*self),
                node_copy_ops(*self, old(doc)@.next_node),
            ),
        decreases *self, 1nat,
    {
        match self {
            Node::Element(e) => Node::Element(e.clone_with(doc)),
            Node::Text(t) => {
                let ws_node = doc.new_node();
                doc.record(DomOp::CloneNode { source: t.ws_node, node: ws_node });
                Node::Text(TextNode { text: t.text.clone(), ws_node })
            },
            Node::GroupedNodes(_) => Node::GroupedNodes(GroupedNodes::new(doc)),
            _ => vstd::pervasive::unreached(),
        }
    }
}

impl<L, H> Nodes<L, H> {
    /// The number of display nodes that copies of the slots are made of,
    /// if every slot can be copied and the number fits.
    pub fn copy_size(&self) -> (size: Option<u64>)
        ensures
            match size {
                Some(size) => nodes_copyable(self.0@, self.0@.len()) && size == nodes_copy_size(
                    self.0@,
                    self.0@.len(),
                ),
                None => !nodes_copyable(self.0@, self.0@.len()) || nodes_copy_size(
                    self.0@,
                    self.0@.len(),
                ) > u64::MAX,
            },
        decreases *self, 1nat,
    {
        let mut total: u64 = 0;
        let mut i: usize = 0;
        while i < self.0.len()
            invariant
                i <= self.0@.len(),
                nodes_copyable(self.0@, i as nat),
                total == nodes_copy_size(self.0@, i as nat),
            decreases self.0.len() - i,
        {
            proof {
                if i + 1 < self.0@.len() {
                    lemma_copy_size_grows(self.0@, (i + 1) as nat, self.0@.len());
                }
            }
            match self.0[i].copy_size() {
                Some(size) => match total.checked_add(size) {
                    Some(sum) => {
                        total = sum;
                    },
                    None => {
                        return None;
                    },
                },
                None => {
                    proof {
                        if nodes_copyable(self.0@, self.0@.len()) {
                            lemma_nodes_copyable_each(self.0@, self.0@.len(), i as int);
                        }
                    }
                    return None;
                },
            }
            i += 1;
        }
        Some(total)
    }

    /// Copies of the slots, made by the display node by node, under no
    /// parent yet.
    pub fn clone_with(&self, doc: &mut Document) -> (copy: Nodes<L, H>)
        requires
            nodes_copyable(self.0@, self.0@.len()),
            old(doc).has_room(nodes_copy_size(self.0@, self.0@.len())),
        ensures
            copy.0@.len() == self.0@.len(),
            nodes_are_copies(copy.0@, self.0@, old(doc)@.next_node, self.0@.len()),
            final(doc).created(
                *old(doc),
                nodes_copy_size(self.0@, self.0@.len()),
                nodes_copy_ops(self.0@, old(doc)@.next_node, self.0@.len()),
            ),
        decreases *self, 2nat,
    {
        let ghost before = *doc;
        let ghost first = doc@.next_node;
        let mut copies: Vec<Node<L, H>> = Vec::new();
        let mut i: usize = 0;
        assert(doc@.ops + Seq::<DomOpView>::empty() =~= doc@.ops);
        while i < self.0.len()
            invariant
                i <= self.0@.len(),
                copies@.len() == i,
                nodes_copyable(self.0@, self.0@.len()),
                first == before@.next_node,
                before.has_room(nodes_copy_size(self.0@, self.0@.len())),
                nodes_are_copies(copies@, self.0@, first, i as nat),
                doc.created(
                    before,
                    nodes_copy_size(self.0@, i as nat),
                    nodes_copy_ops(self.0@, first, i as nat),
                ),
            decreases self.0.len() - i,
        {
            let ghost so_far = copies@;
            proof {
                lemma_copy_size_grows(self.0@, (i + 1) as nat, self.0@.len() as nat);
                lemma_nodes_copyable_each(self.0@, self.0@.len(), i as int);
            }
            let copy = self.0[i].clone_with(doc);
            copies.push(copy);
            proof {
                lemma_copies_frame(so_far, copies@, self.0@, first, i as nat);
                assert(doc@.ops =~= before@.ops + nodes_copy_ops(self.0@, first, (i + 1) as nat));
            }
            i += 1;
        }
        Nodes(copies)
    }
}

} // verus!
