//! The node store: the ordered children of an element, each found again by
//! its position in the next render pass.

use crate::dom::copy::node_copy_ops;
use crate::dom::copy::node_copy_size;
use crate::dom::copy::node_copyable;
use crate::dom::copy::node_is_copy;
use crate::dom::document::Document;
use crate::dom::document::DomOp;
use crate::dom::document::DomOpView;
use crate::dom::element::Element;
use crate::dom::element::ElementStatus;
use crate::dom::element::TextNode;
use crate::dom::element::element_type_of;
use crate::dom::element::str_view;
use crate::dom::keyed_list::KeyedElement;
use crate::dom::keyed_list::KeyedList;
use vstd::prelude::*;

verus! {

/// Keeps a mounted child component registered for as long as the slot that
/// holds it stays in the store.
pub struct AnyComponentHandle<H>(pub H);

/// One slot of a node store.
pub enum Node<L, H> {
    Element(Element<L, H>),
    Text(TextNode),
    GroupedNodes(GroupedNodes<L, H>),
    KeyedList(KeyedList<L, H>),
    ComponentHandle(AnyComponentHandle<H>),
}

/// The kinds of node slot.
#[derive(Clone, Copy, PartialEq, Eq, Structural, Debug)]
pub enum NodeKind {
    Element,
    Text,
    GroupedNodes,
    KeyedList,
    ComponentHandle,
}

/// The kind of a node slot.
pub open spec fn node_kind<L, H>(node: Node<L, H>) -> NodeKind {
    match node {
        Node::Element(_) => NodeKind::Element,
        Node::Text(_) => NodeKind::Text,
        Node::GroupedNodes(_) => NodeKind::GroupedNodes,
        Node::KeyedList(_) => NodeKind::KeyedList,
        Node::ComponentHandle(_) => NodeKind::ComponentHandle,
    }
}

/// An ordered sequence of node slots.
pub struct Nodes<L, H>(pub Vec<Node<L, H>>);

/// A run of sibling nodes that ends in an invisible marker node: one arm of
/// a conditional, or the items of a list.
pub struct GroupedNodes<L, H> {
    /// The arm that the nested nodes were rendered for.
    pub active_index: Option<u32>,
    /// The number of the marker node.
    pub end_flag_node: u64,
    pub nodes: Nodes<L, H>,
}

/// The operations that take a node away from under `parent`: one for an
/// element or a text, one for each nested node and one for the marker of a
/// fragment, one for each item of a keyed list, none for a component.
pub open spec fn node_clear_ops<L, H>(node: Node<L, H>, parent: u64) -> Seq<DomOpView>
    decreases node,
{
    match node {
        Node::Element(e) => seq![DomOpView::RemoveChild { parent, child: e.ws_element }],
        Node::Text(t) => seq![DomOpView::RemoveChild { parent, child: t.ws_node }],
        Node::GroupedNodes(g) => nodes_clear_ops(g.nodes.0@, g.nodes.0@.len(), parent) + seq![
            DomOpView::RemoveChild { parent, child: g.end_flag_node },
        ],
        Node::KeyedList(l) => keyed_clear_ops(l.active@, l.active@.len(), parent),
        Node::ComponentHandle(_) => Seq::empty(),
    }
}

/// The operations that take the first `count` of `nodes` away from under
/// `parent`, in their order.
pub open spec fn nodes_clear_ops<L, H>(nodes: Seq<Node<L, H>>, count: nat, parent: u64) -> Seq<
    DomOpView,
>
    decreases nodes, count,
{
    if count == 0 || count > nodes.len() {
        Seq::empty()
    } else {
        nodes_clear_ops(nodes, (count - 1) as nat, parent) + node_clear_ops(
            nodes[count - 1],
            parent,
        )
    }
}

/// The operations that take the first `count` items of a keyed list away
/// from under `parent`, in their order. An empty place gives none.
pub open spec fn keyed_clear_ops<L, H>(
    items: Seq<Option<KeyedElement<L, H>>>,
    count: nat,
    parent: u64,
) -> Seq<DomOpView>
    decreases count,
{
    if count == 0 || count > items.len() {
        Seq::empty()
    } else {
        keyed_clear_ops(items, (count - 1) as nat, parent) + match items[count - 1] {
            Some(item) => seq![DomOpView::RemoveChild { parent, child: item.element.ws_element }],
            None => Seq::empty(),
        }
    }
}

/// The operations that put a node last under `parent`.
pub open spec fn node_append_ops<L, H>(node: Node<L, H>, parent: u64) -> Seq<DomOpView>
    decreases node,
{
    match node {
        Node::Element(e) => seq![
            DomOpView::InsertBefore { parent, child: e.ws_element, next_sibling: None },
        ],
        Node::Text(t) => seq![
            DomOpView::InsertBefore { parent, child: t.ws_node, next_sibling: None },
        ],
        Node::GroupedNodes(g) => nodes_append_ops(g.nodes.0@, g.nodes.0@.len(), parent) + seq![
            DomOpView::InsertBefore { parent, child: g.end_flag_node, next_sibling: None },
        ],
        Node::KeyedList(l) => keyed_append_ops(l.active@, l.active@.len(), parent),
        Node::ComponentHandle(_) => Seq::empty(),
    }
}

/// The operations that put the first `count` of `nodes` last under `parent`,
/// in their order.
pub open spec fn nodes_append_ops<L, H>(nodes: Seq<Node<L, H>>, count: nat, parent: u64) -> Seq<
    DomOpView,
>
    decreases nodes, count,
{
    if count == 0 || count > nodes.len() {
        Seq::empty()
    } else {
        nodes_append_ops(nodes, (count - 1) as nat, parent) + node_append_ops(
            nodes[count - 1],
            parent,
        )
    }
}

/// The operations that put the first `count` items of a keyed list last
/// under `parent`, in their order. An empty place gives none.
pub open spec fn keyed_append_ops<L, H>(
    items: Seq<Option<KeyedElement<L, H>>>,
    count: nat,
    parent: u64,
) -> Seq<DomOpView>
    decreases count,
{
    if count == 0 || count > items.len() {
        Seq::empty()
    } else {
        keyed_append_ops(items, (count - 1) as nat, parent) + match items[count - 1] {
            Some(item) => seq![
                DomOpView::InsertBefore {
                    parent,
                    child: item.element.ws_element,
                    next_sibling: None,
                },
            ],
            None => Seq::empty(),
        }
    }
}

/// The element that a node shows first: itself, or the first of a fragment
/// or of a keyed list.
pub open spec fn node_first_element<L, H>(node: Node<L, H>) -> Option<Element<L, H>>
    decreases node,
{
    match node {
        Node::Element(e) => Some(e),
        Node::Text(_) => None,
        Node::GroupedNodes(g) => nodes_first_element(g.nodes.0@),
        Node::KeyedList(l) => if l.active@.len() > 0 {
            match l.active@[0] {
                Some(item) => Some(item.element),
                None => None,
            }
        } else {
            None
        },
        Node::ComponentHandle(_) => None,
    }
}

/// The element that the first of `nodes` shows first.
pub open spec fn nodes_first_element<L, H>(nodes: Seq<Node<L, H>>) -> Option<Element<L, H>>
    decreases nodes, 0nat,
{
    if nodes.len() == 0 {
        None
    } else {
        node_first_element(nodes[0])
    }
}

/// The element that a node shows last: itself, or the last of a fragment or
/// of a keyed list.
pub open spec fn node_last_element<L, H>(node: Node<L, H>) -> Option<Element<L, H>>
    decreases node,
{
    match node {
        Node::Element(e) => Some(e),
        Node::Text(_) => None,
        Node::GroupedNodes(g) => nodes_last_element(g.nodes.0@),
        Node::KeyedList(l) => if l.active@.len() > 0 {
            match l.active@[l.active@.len() - 1] {
                Some(item) => Some(item.element),
                None => None,
            }
        } else {
            None
        },
        Node::ComponentHandle(_) => None,
    }
}

/// The element that the last of `nodes` shows last.
pub open spec fn nodes_last_element<L, H>(nodes: Seq<Node<L, H>>) -> Option<Element<L, H>>
    decreases nodes, 0nat,
{
    if nodes.len() == 0 {
        None
    } else {
        node_last_element(nodes[nodes.len() - 1])
    }
}

/// Whether `after` is `before` with one slot more at the end.
pub open spec fn one_more<L, H>(after: Seq<Node<L, H>>, before: Seq<Node<L, H>>) -> bool {
    after.len() == before.len() + 1 && after.subrange(0, before.len() as int) == before
}

/// One where the condition holds, else none.
pub open spec fn one_if(condition: bool) -> nat {
    if condition {
        1
    } else {
        0
    }
}

/// Whether `node` is an element just made for `tag` under the number `id`:
/// of the kind that the tag makes, without attributes and without children.
pub open spec fn is_new_element<L, H>(node: Node<L, H>, id: nat, tag: Seq<char>) -> bool {
    &&& node matches Node::Element(e)
    &&& e.ws_element == id
    &&& e.element_type == element_type_of(tag)
    &&& e.attributes@.len() == 0
    &&& e.nodes.0@.len() == 0
}

/// Whether `node` is a text node just made for `text` under the number `id`.
pub open spec fn is_new_text<L, H>(node: Node<L, H>, id: nat, text: Seq<char>) -> bool {
    &&& node matches Node::Text(t)
    &&& t.ws_node == id
    &&& t.text@ == text
}

/// Whether `node` is a fragment just made, with the marker `id`: without
/// nested nodes and without an arm.
pub open spec fn is_new_group<L, H>(node: Node<L, H>, id: nat) -> bool {
    &&& node matches Node::GroupedNodes(g)
    &&& g.end_flag_node == id
    &&& g.active_index is None
    &&& g.nodes.0@.len() == 0
}

/// The operations that make an element for `tag` under the number `id` and
/// put it under `parent`, before `next_sibling` or last.
pub open spec fn new_element_ops(
    id: nat,
    ns: Option<Seq<char>>,
    tag: Seq<char>,
    parent: u64,
    next_sibling: Option<u64>,
) -> Seq<DomOpView> {
    seq![
        DomOpView::CreateElement { node: id as u64, namespace: ns, tag },
        DomOpView::InsertBefore { parent, child: id as u64, next_sibling },
    ]
}

/// The operations that make a text node under the number `id` and put it
/// under `parent`, before `next_sibling` or last.
pub open spec fn new_text_ops(
    id: nat,
    text: Seq<char>,
    parent: u64,
    next_sibling: Option<u64>,
) -> Seq<DomOpView> {
    seq![
        DomOpView::CreateText { node: id as u64, text },
        DomOpView::InsertBefore { parent, child: id as u64, next_sibling },
    ]
}

/// The operations that make the marker of a fragment under the number `id`
/// and put it under `parent`, before `next_sibling` or last.
pub open spec fn new_group_ops(id: nat, parent: u64, next_sibling: Option<u64>) -> Seq<DomOpView> {
    seq![
        DomOpView::CreateMarker { node: id as u64 },
        DomOpView::InsertBefore { parent, child: id as u64, next_sibling },
    ]
}

/// Whether `after` is `before` with the text at `index` rendered: at the
/// end a new text node, numbered `id`; elsewhere the text node that was
/// there, with the new text.
pub open spec fn text_rendered<L, H>(
    after: Seq<Node<L, H>>,
    before: Seq<Node<L, H>>,
    index: int,
    text: Seq<char>,
    id: nat,
) -> bool {
    if index == before.len() {
        one_more(after, before) && is_new_text(after.last(), id, text)
    } else {
        &&& after.len() == before.len()
        &&& forall|i: int| 0 <= i < before.len() && i != index ==> after[i] == before[i]
        &&& is_new_text(after[index], before[index]->Text_0.ws_node as nat, text)
    }
}

/// The operations that render the text at `index`: a new text node at the
/// end; elsewhere one write if the text differs from the one last written.
pub open spec fn update_text_ops<L, H>(
    before: Seq<Node<L, H>>,
    index: int,
    text: Seq<char>,
    parent: u64,
    next_sibling: Option<u64>,
    id: nat,
) -> Seq<DomOpView> {
    if index == before.len() {
        new_text_ops(id, text, parent, next_sibling)
    } else if before[index]->Text_0.text@ == text {
        Seq::empty()
    } else {
        seq![DomOpView::SetTextContent { node: before[index]->Text_0.ws_node, content: Some(text) }]
    }
}

/// Rendering a text again, with nothing changed, writes nothing: once the
/// text at `index` is rendered, the operations that render the same text
/// there are none.
pub proof fn lemma_update_text_again<L, H>(
    after: Seq<Node<L, H>>,
    before: Seq<Node<L, H>>,
    index: int,
    text: Seq<char>,
    parent: u64,
    next_sibling: Option<u64>,
    id: nat,
    next_id: nat,
)
    requires
        0 <= index <= before.len(),
        text_rendered(after, before, index, text, id),
    ensures
        index < after.len(),
        after[index] is Text,
        update_text_ops(after, index, text, parent, next_sibling, next_id) == Seq::<
            DomOpView,
        >::empty(),
{
}

impl<L, H> Node<L, H> {
    /// The kind of the slot.
    pub fn kind(&self) -> (kind: NodeKind)
        ensures
            kind == node_kind(*self),
    {
        match self {
            Node::Element(_) => NodeKind::Element,
            Node::Text(_) => NodeKind::Text,
            Node::GroupedNodes(_) => NodeKind::GroupedNodes,
            Node::KeyedList(_) => NodeKind::KeyedList,
            Node::ComponentHandle(_) => NodeKind::ComponentHandle,
        }
    }

    /// Takes the node away from under `parent`.
    pub fn remove_from(&self, parent: u64, doc: &mut Document)
        ensures
            final(doc).recorded(*old(doc), node_clear_ops(*self, parent)),
        decreases *self,
    {
        match self {
            Node::Element(e) => e.remove_from(parent, doc),
            Node::Text(t) => doc.remove_child(parent, t.ws_node),
            Node::GroupedNodes(g) => {
                let ghost before = *doc;
                g.nodes.remove_from(0, parent, doc);
                let ghost between = *doc;
                doc.remove_child(parent, g.end_flag_node);
                proof {
                    assert(g.nodes.0@.subrange(0, g.nodes.0@.len() as int) =~= g.nodes.0@);
                    doc.lemma_recorded_twice(
                        before,
                        between,
                        nodes_clear_ops(g.nodes.0@, g.nodes.0@.len(), parent),
                        seq![DomOpView::RemoveChild { parent, child: g.end_flag_node }],
                    );
                }
            },
            Node::KeyedList(l) => l.remove_from(parent, doc),
            Node::ComponentHandle(_) => {
                assert(doc@.ops + Seq::<DomOpView>::empty() =~= doc@.ops);
            },
        }
    }

    /// Puts the node last under `parent`.
    pub fn append_to(&self, parent: u64, doc: &mut Document)
        ensures
            final(doc).recorded(*old(doc), node_append_ops(*self, parent)),
        decreases *self,
    {
        match self {
            Node::Element(e) => e.append_to(parent, doc),
            Node::Text(t) => doc.append_child(parent, t.ws_node),
            Node::GroupedNodes(g) => {
                let ghost before = *doc;
                g.nodes.append_to(parent, doc);
                let ghost between = *doc;
                doc.append_child(parent, g.end_flag_node);
                proof {
                    doc.lemma_recorded_twice(
                        before,
                        between,
                        nodes_append_ops(g.nodes.0@, g.nodes.0@.len(), parent),
                        seq![
                            DomOpView::InsertBefore {
                                parent,
                                child: g.end_flag_node,
                                next_sibling: None,
                            },
                        ],
                    );
                }
            },
            Node::KeyedList(l) => l.append_to(parent, doc),
            Node::ComponentHandle(_) => {
                assert(doc@.ops + Seq::<DomOpView>::empty() =~= doc@.ops);
            },
        }
    }

    /// The element that the node shows first.
    pub fn get_first_element(&self) -> (first: Option<&Element<L, H>>)
        ensures
            match first {
                Some(e) => node_first_element(*self) == Some(*e),
                None => node_first_element(*self) is None,
            },
        decreases *self,
    {
        match self {
            Node::Element(e) => Some(e),
            Node::Text(_) => None,
            Node::GroupedNodes(g) => g.nodes.get_first_element(),
            Node::KeyedList(l) => l.get_first_element(),
            Node::ComponentHandle(_) => None,
        }
    }

    /// The element that the node shows last.
    pub fn get_last_element(&self) -> (last: Option<&Element<L, H>>)
        ensures
            match last {
                Some(e) => node_last_element(*self) == Some(*e),
                None => node_last_element(*self) is None,
            },
        decreases *self,
    {
        match self {
            Node::Element(e) => Some(e),
            Node::Text(_) => None,
            Node::GroupedNodes(g) => g.nodes.get_last_element(),
            Node::KeyedList(l) => l.get_last_element(),
            Node::ComponentHandle(_) => None,
        }
    }
}

impl<L, H> Nodes<L, H> {
    /// A store without slots.
    pub fn new() -> (nodes: Nodes<L, H>)
        ensures
            nodes.0@.len() == 0,
    {
        Nodes(Vec::new())
    }

    /// The number of slots.
    pub fn count(&self) -> (count: usize)
        ensures
            count == self.0@.len(),
    {
        self.0.len()
    }

    /// The kind of the slot `index`; none beyond the last slot.
    pub fn kind_at(&self, index: usize) -> (kind: Option<NodeKind>)
        ensures
            kind == if index < self.0@.len() {
                Some(node_kind(self.0@[index as int]))
            } else {
                None
            },
    {
        if index < self.0.len() {
            Some(self.0[index].kind())
        } else {
            None
        }
    }

    /// Takes every node away from under `parent` and forgets the slots.
    pub fn clear(&mut self, parent: u64, doc: &mut Document)
        ensures
            final(self).0@.len() == 0,
            final(doc).recorded(
                *old(doc),
                nodes_clear_ops(old(self).0@, old(self).0@.len(), parent),
            ),
    {
        assert(self.0@.subrange(0, self.0@.len() as int) =~= self.0@);
        self.remove_from(0, parent, doc);
        self.0.clear();
    }

    /// Forgets every slot. The display is not touched.
    pub fn clear_vec(&mut self)
        ensures
            final(self).0@.len() == 0,
    {
        self.0.clear();
    }

    /// Takes the nodes from `index` on away from under `parent` and forgets
    /// their slots.
    pub fn clear_after(&mut self, index: usize, parent: u64, doc: &mut Document)
        requires
            index <= old(self).0@.len(),
        ensures
            final(self).0@ == old(self).0@.subrange(0, index as int),
            final(doc).recorded(
                *old(doc),
                nodes_clear_ops(
                    old(self).0@.subrange(index as int, old(self).0@.len() as int),
                    (old(self).0@.len() - index) as nat,
                    parent,
                ),
            ),
    {
        self.remove_from(index, parent, doc);
        self.0.truncate(index);
    }

    /// Takes the nodes from `index` on away from under `parent`. The store
    /// keeps its slots.
    pub fn remove_from(&self, index: usize, parent: u64, doc: &mut Document)
        ensures
            final(doc).recorded(
                *old(doc),
                if index <= self.0@.len() {
                    nodes_clear_ops(
                        self.0@.subrange(index as int, self.0@.len() as int),
                        (self.0@.len() - index) as nat,
                        parent,
                    )
                } else {
                    Seq::empty()
                },
            ),
        decreases *self, 1nat,
    {
        assert(doc@.ops + Seq::<DomOpView>::empty() =~= doc@.ops);
        if index > self.0.len() {
            return ;
        }
        let ghost before = *doc;
        let ghost rest = self.0@.subrange(index as int, self.0@.len() as int);
        let mut i: usize = index;
        while i < self.0.len()
            invariant
                index <= i,
                i <= self.0@.len(),
                rest == self.0@.subrange(index as int, self.0@.len() as int),
                doc.recorded(before, nodes_clear_ops(rest, (i - index) as nat, parent)),
            decreases self.0.len() - i,
        {
            let ghost between = *doc;
            self.0[i].remove_from(parent, doc);
            proof {
                assert(rest[i - index] == self.0@[i as int]);
                doc.lemma_recorded_twice(
                    before,
                    between,
                    nodes_clear_ops(rest, (i - index) as nat, parent),
                    node_clear_ops(self.0@[i as int], parent),
                );
            }
            i += 1;
        }
    }

    /// Puts every node last under `parent`, in their order.
    pub fn append_to(&self, parent: u64, doc: &mut Document)
        ensures
            final(doc).recorded(*old(doc), nodes_append_ops(self.0@, self.0@.len(), parent)),
        decreases *self, 1nat,
    {
        let ghost before = *doc;
        let mut i: usize = 0;
        assert(doc@.ops + Seq::<DomOpView>::empty() =~= doc@.ops);
        while i < self.0.len()
            invariant
                i <= self.0@.len(),
                doc.recorded(before, nodes_append_ops(self.0@, i as nat, parent)),
            decreases self.0.len() - i,
        {
            let ghost between = *doc;
            self.0[i].append_to(parent, doc);
            proof {
                doc.lemma_recorded_twice(
                    before,
                    between,
                    nodes_append_ops(self.0@, i as nat, parent),
                    node_append_ops(self.0@[i as int], parent),
                );
            }
            i += 1;
        }
    }

    /// The element in the slot `index`.
    pub fn get_element_mut(&mut self, index: usize) -> (element: &mut Element<L, H>)
        requires
            index < old(self).0@.len(),
            old(self).0@[index as int] is Element,
        ensures
            *element == old(self).0@[index as int]->Element_0,
            final(self).0@ == old(self).0@.update(index as int, Node::Element(*final(element))),
    {
        match &mut self.0[index] {
            Node::Element(element) => element,
            _ => vstd::pervasive::unreached(),
        }
    }

    /// Makes an element for `tag`, puts it under `parent` before
    /// `next_sibling` or last, and gives it a new slot at the end of the
    /// store.
    pub fn create_new_element_ns(
        &mut self,
        ns: Option<&str>,
        tag: &str,
        parent: u64,
        next_sibling: Option<u64>,
        doc: &mut Document,
    )
        requires
            old(doc).has_room(1),
        ensures
            one_more(final(self).0@, old(self).0@),
            is_new_element(final(self).0@.last(), old(doc)@.next_node, tag@),
            final(doc).created(
                *old(doc),
                1,
                new_element_ops(old(doc)@.next_node, str_view(ns), tag@, parent, next_sibling),
            ),
    {
        let e = Element::new_ns(ns, tag, doc);
        e.insert_before(parent, next_sibling, doc);
        self.0.push(Node::Element(e));
        proof {
            assert(final(self).0@.subrange(0, old(self).0@.len() as int) =~= old(self).0@);
            assert(doc@.ops =~= old(doc)@.ops + new_element_ops(
                old(doc)@.next_node,
                str_view(ns),
                tag@,
                parent,
                next_sibling,
            ));
        }
    }

    /// The status of the element that a render pass visits at `index`. At
    /// the end of the store the element is new: it is made and put under
    /// `parent`. Anywhere else the element is there already and has the
    /// status of its parent.
    pub fn check_or_create_element(
        &mut self,
        ns: Option<&str>,
        tag: &str,
        index: usize,
        parent_status: ElementStatus,
        parent: u64,
        next_sibling: Option<u64>,
        doc: &mut Document,
    ) -> (status: ElementStatus)
        requires
            index == old(self).0@.len() ==> old(doc).has_room(1),
        ensures
            index == old(self).0@.len() ==> {
                &&& status == ElementStatus::JustCreated
                &&& one_more(final(self).0@, old(self).0@)
                &&& is_new_element(final(self).0@.last(), old(doc)@.next_node, tag@)
                &&& final(doc).created(
                    *old(doc),
                    1,
                    new_element_ops(old(doc)@.next_node, str_view(ns), tag@, parent, next_sibling),
                )
            },
            index != old(self).0@.len() ==> {
                &&& status == parent_status
                &&& *final(self) == *old(self)
                &&& *final(doc) == *old(doc)
            },
    {
        if index == self.0.len() {
            self.create_new_element_ns(ns, tag, parent, next_sibling, doc);
            ElementStatus::JustCreated
        } else {
            parent_status
        }
    }

    /// The status of the list item that a render pass visits at `index`.
    /// Within the store the item is there already. Beyond it the item is new
    /// and gets a slot at the end: where copying is asked for and a first
    /// item exists, the new one is a copy of the first; else it is made for
    /// `tag`. Either way it is put under `parent`.
    pub fn check_or_create_element_for_list(
        &mut self,
        ns: Option<&str>,
        tag: &str,
        index: usize,
        parent: u64,
        next_sibling: Option<u64>,
        use_template: bool,
        doc: &mut Document,
    ) -> (status: ElementStatus)
        requires
            index >= old(self).0@.len() ==> if !use_template || old(self).0@.len() == 0 {
                old(doc).has_room(1)
            } else {
                &&& old(self).0@[0] is Element
                &&& node_copyable(old(self).0@[0])
                &&& old(doc).has_room(node_copy_size(old(self).0@[0]))
            },
        ensures
            index < old(self).0@.len() ==> {
                &&& status == ElementStatus::Existing
                &&& *final(self) == *old(self)
                &&& *final(doc) == *old(doc)
            },
            index >= old(self).0@.len() && (!use_template || old(self).0@.len() == 0) ==> {
                &&& status == ElementStatus::JustCreated
                &&& one_more(final(self).0@, old(self).0@)
                &&& is_new_element(final(self).0@.last(), old(doc)@.next_node, tag@)
                &&& final(doc).created(
                    *old(doc),
                    1,
                    new_element_ops(old(doc)@.next_node, str_view(ns), tag@, parent, next_sibling),
                )
            },
            index >= old(self).0@.len() && use_template && old(self).0@.len() > 0 ==> {
                &&& status == ElementStatus::JustCloned
                &&& one_more(final(self).0@, old(self).0@)
                &&& node_is_copy(final(self).0@.last(), old(self).0@[0], old(doc)@.next_node)
                &&& final(doc).created(
                    *old(doc),
                    node_copy_size(old(self).0@[0]),
                    node_copy_ops(old(self).0@[0], old(doc)@.next_node) + seq![
                        DomOpView::InsertBefore {
                            parent,
                            child: old(doc)@.next_node as u64,
                            next_sibling,
                        },
                    ],
                )
            },
    {
        let item_count = self.0.len();
        if index < item_count {
            ElementStatus::Existing
        } else if !use_template || item_count == 0 {
            self.create_new_element_ns(ns, tag, parent, next_sibling, doc);
            ElementStatus::JustCreated
        } else {
            let ghost before = *doc;
            let element = self.0[0].clone_with(doc);
            match &element {
                Node::Element(e) => e.insert_before(parent, next_sibling, doc),
                _ => {
                    assert(false);
                },
            }
            self.0.push(element);
            proof {
                assert(final(self).0@.subrange(0, old(self).0@.len() as int) =~= old(self).0@);
                assert(doc@.ops =~= before@.ops + (node_copy_ops(
                    old(self).0@[0],
                    before@.next_node,
                ) + seq![
                    DomOpView::InsertBefore {
                        parent,
                        child: before@.next_node as u64,
                        next_sibling,
                    },
                ]));
            }
            ElementStatus::JustCloned
        }
    }

    /// The fragment that a render pass visits at `index`. At the end of the
    /// store the fragment is new: its marker is made and put under `parent`
    /// before `next_sibling` or last.
    pub fn grouped_nodes(
        &mut self,
        index: usize,
        parent: u64,
        next_sibling: Option<u64>,
        doc: &mut Document,
    ) -> (group: &mut GroupedNodes<L, H>)
        requires
            index <= old(self).0@.len(),
            index < old(self).0@.len() ==> old(self).0@[index as int] is GroupedNodes,
            index == old(self).0@.len() ==> old(doc).has_room(1),
        ensures
            index < old(self).0@.len() ==> {
                &&& *group == old(self).0@[index as int]->GroupedNodes_0
                &&& final(self).0@ == old(self).0@.update(
                    index as int,
                    Node::GroupedNodes(*final(group)),
                )
                &&& *final(doc) == *old(doc)
            },
            index == old(self).0@.len() ==> {
                &&& is_new_group(Node::<L, H>::GroupedNodes(*group), old(doc)@.next_node)
                &&& final(self).0@ == old(self).0@.push(Node::GroupedNodes(*final(group)))
                &&& final(doc).created(
                    *old(doc),
                    1,
                    new_group_ops(old(doc)@.next_node, parent, next_sibling),
                )
            },
    {
        if index == self.0.len() {
            let fnl = GroupedNodes::new(doc);
            doc.insert_before(parent, fnl.end_flag_node, next_sibling);
            self.0.push(Node::GroupedNodes(fnl));
            proof {
                assert(doc@.ops =~= old(doc)@.ops + new_group_ops(
                    old(doc)@.next_node,
                    parent,
                    next_sibling,
                ));
            }
        }
        let ghost mid = self.0@;
        let group = match &mut self.0[index] {
            Node::GroupedNodes(group) => group,
            _ => vstd::pervasive::unreached(),
        };
        proof {
            if index == old(self).0@.len() {
                assert(mid.update(index as int, Node::GroupedNodes(*final(group))) =~= old(
                    self,
                ).0@.push(Node::GroupedNodes(*final(group))));
            }
        }
        group
    }

    /// The keyed list of an element whose children are the items of one.
    /// It is the first slot; an empty store gets an empty list.
    pub fn keyed_list(&mut self) -> (list: &mut KeyedList<L, H>)
        requires
            old(self).0@.len() > 0 ==> old(self).0@[0] is KeyedList,
        ensures
            old(self).0@.len() > 0 ==> {
                &&& *list == old(self).0@[0]->KeyedList_0
                &&& final(self).0@ == old(self).0@.update(0, Node::KeyedList(*final(list)))
            },
            old(self).0@.len() == 0 ==> {
                &&& list.active@.len() == 0
                &&& list.buffer@.len() == 0
                &&& list.template is None
                &&& final(self).0@ == seq![Node::KeyedList(*final(list))]
            },
    {
        if self.0.len() == 0 {
            self.0.push(Node::KeyedList(KeyedList::new()));
        }
        let ghost mid = self.0@;
        let list = match &mut self.0[0] {
            Node::KeyedList(list) => list,
            _ => vstd::pervasive::unreached(),
        };
        proof {
            if old(self).0@.len() == 0 {
                assert(mid.update(0, Node::KeyedList(*final(list))) =~= seq![
                    Node::KeyedList(*final(list)),
                ]);
            }
        }
        list
    }

    /// Keeps the handle of the component mounted under this element, in the
    /// first slot, in place of what was there.
    pub fn store_component_handle(&mut self, any: AnyComponentHandle<H>)
        ensures
            final(self).0@ == if old(self).0@.len() > 0 {
                old(self).0@.update(0, Node::ComponentHandle(any))
            } else {
                seq![Node::ComponentHandle(any)]
            },
    {
        let any = Node::ComponentHandle(any);
        if self.0.len() > 0 {
            self.0[0] = any;
        } else {
            self.0.push(any);
            assert(final(self).0@ =~= seq![any]);
        }
    }

    /// The element that the first slot shows first.
    pub fn get_first_element(&self) -> (first: Option<&Element<L, H>>)
        ensures
            match first {
                Some(e) => nodes_first_element(self.0@) == Some(*e),
                None => nodes_first_element(self.0@) is None,
            },
        decreases *self, 1nat,
    {
        if self.0.len() == 0 {
            None
        } else {
            self.0[0].get_first_element()
        }
    }

    /// The element that the last slot shows last.
    pub fn get_last_element(&self) -> (last: Option<&Element<L, H>>)
        ensures
            match last {
                Some(e) => nodes_last_element(self.0@) == Some(*e),
                None => nodes_last_element(self.0@) is None,
            },
        decreases *self, 1nat,
    {
        if self.0.len() == 0 {
            None
        } else {
            self.0[self.0.len() - 1].get_last_element()
        }
    }

    /// Renders a text that never changes: at the end of the store a text
    /// node is made and put under `parent`; in a slot that holds a text node
    /// nothing is done, whatever the text is.
    pub fn static_text(
        &mut self,
        index: usize,
        text: &str,
        parent: u64,
        next_sibling: Option<u64>,
        doc: &mut Document,
    )
        requires
            index < old(self).0@.len() ==> old(self).0@[index as int] is Text,
            index == old(self).0@.len() ==> old(doc).has_room(1),
        ensures
            index == old(self).0@.len() ==> {
                &&& one_more(final(self).0@, old(self).0@)
                &&& is_new_text(final(self).0@.last(), old(doc)@.next_node, text@)
                &&& final(doc).created(
                    *old(doc),
                    1,
                    new_text_ops(old(doc)@.next_node, text@, parent, next_sibling),
                )
            },
            index != old(self).0@.len() ==> {
                &&& *final(self) == *old(self)
                &&& *final(doc) == *old(doc)
            },
    {
        if index == self.0.len() {
            self.add_text_node(text, parent, next_sibling, doc);
        }
    }

    /// Renders a text that may change: at the end of the store a text node
    /// is made and put under `parent`; in a slot that holds a text node, the
    /// display is written if the text differs from the one last written.
    pub fn update_text(
        &mut self,
        index: usize,
        text: &str,
        parent: u64,
        next_sibling: Option<u64>,
        doc: &mut Document,
    )
        requires
            index <= old(self).0@.len(),
            index < old(self).0@.len() ==> old(self).0@[index as int] is Text,
            index == old(self).0@.len() ==> old(doc).has_room(1),
        ensures
            text_rendered(
                final(self).0@,
                old(self).0@,
                index as int,
                text@,
                old(doc)@.next_node,
            ),
            final(doc).created(
                *old(doc),
                one_if(index == old(self).0@.len()),
                update_text_ops(
                    old(self).0@,
                    index as int,
                    text@,
                    parent,
                    next_sibling,
                    old(doc)@.next_node,
                ),
            ),
    {
        if index == self.0.len() {
            self.add_text_node(text, parent, next_sibling, doc);
        } else {
            match &mut self.0[index] {
                Node::Text(text_node) => text_node.update_text(text, doc),
                _ => {
                    assert(false);
                },
            }
        }
    }

    fn add_text_node(
        &mut self,
        text: &str,
        parent: u64,
        next_sibling: Option<u64>,
        doc: &mut Document,
    )
        requires
            old(doc).has_room(1),
        ensures
            one_more(final(self).0@, old(self).0@),
            is_new_text(final(self).0@.last(), old(doc)@.next_node, text@),
            final(doc).created(
                *old(doc),
                1,
                new_text_ops(old(doc)@.next_node, text@, parent, next_sibling),
            ),
    {
        let text = TextNode::new(text, doc);
        text.insert_before(parent, next_sibling, doc);
        self.0.push(Node::Text(text));
        proof {
            assert(final(self).0@.subrange(0, old(self).0@.len() as int) =~= old(self).0@);
            assert(doc@.ops =~= old(doc)@.ops + new_text_ops(
                old(doc)@.next_node,
                text.text@,
                parent,
                next_sibling,
            ));
        }
    }
}

impl<L, H> GroupedNodes<L, H> {
    /// A fragment without nested nodes and without an arm. The display makes
    /// its marker, under no parent yet.
    pub fn new(doc: &mut Document) -> (group: GroupedNodes<L, H>)
        requires
            old(doc).has_room(1),
        ensures
            group.end_flag_node == old(doc)@.next_node,
            group.active_index is None,
            group.nodes.0@.len() == 0,
            final(doc).created(
                *old(doc),
                1,
                seq![DomOpView::CreateMarker { node: group.end_flag_node }],
            ),
    {
        let end_flag_node = doc.new_node();
        doc.record(DomOp::CreateMarker { node: end_flag_node });
        GroupedNodes { active_index: None, end_flag_node, nodes: Nodes::new() }
    }

    /// Chooses the arm to render. Choosing the arm that is active changes
    /// nothing. Choosing another takes every nested node away from under
    /// `parent`, so that the arm is rendered from nothing.
    pub fn set_active_index(&mut self, index: u32, parent: u64, doc: &mut Document) -> (status:
        ElementStatus)
        ensures
            final(self).active_index == Some(index),
            final(self).end_flag_node == old(self).end_flag_node,
            old(self).active_index == Some(index) ==> {
                &&& status == ElementStatus::Existing
                &&& final(self).nodes == old(self).nodes
                &&& *final(doc) == *old(doc)
            },
            old(self).active_index != Some(index) ==> {
                &&& status == ElementStatus::JustCreated
                &&& final(self).nodes.0@.len() == 0
                &&& final(doc).recorded(
                    *old(doc),
                    nodes_clear_ops(old(self).nodes.0@, old(self).nodes.0@.len(), parent),
                )
            },
    {
        let same = match self.active_index {
            Some(active) => active == index,
            None => false,
        };
        if !same {
            self.nodes.clear(parent, doc);
            self.active_index = Some(index);
            ElementStatus::JustCreated
        } else {
            ElementStatus::Existing
        }
    }

    /// Takes the nested nodes and then the marker away from under `parent`,
    /// and forgets the nested slots.
    pub fn clear(&mut self, parent: u64, doc: &mut Document)
        ensures
            final(self).nodes.0@.len() == 0,
            final(self).active_index == old(self).active_index,
            final(self).end_flag_node == old(self).end_flag_node,
            final(doc).recorded(*old(doc), node_clear_ops(Node::GroupedNodes(*old(self)), parent)),
    {
        let ghost before = *doc;
        self.nodes.clear(parent, doc);
        let ghost between = *doc;
        doc.remove_child(parent, self.end_flag_node);
        proof {
            doc.lemma_recorded_twice(
                before,
                between,
                nodes_clear_ops(old(self).nodes.0@, old(self).nodes.0@.len(), parent),
                seq![DomOpView::RemoveChild { parent, child: self.end_flag_node }],
            );
        }
    }

    /// Puts the nested nodes and then the marker last under `parent`.
    pub fn append_to(&self, parent: u64, doc: &mut Document)
        ensures
            final(doc).recorded(*old(doc), node_append_ops(Node::GroupedNodes(*self), parent)),
    {
        let ghost before = *doc;
        self.nodes.append_to(parent, doc);
        let ghost between = *doc;
        doc.append_child(parent, self.end_flag_node);
        proof {
            doc.lemma_recorded_twice(
                before,
                between,
                nodes_append_ops(self.nodes.0@, self.nodes.0@.len(), parent),
                seq![
                    DomOpView::InsertBefore {
                        parent,
                        child: self.end_flag_node,
                        next_sibling: None,
                    },
                ],
            );
        }
    }

    /// The nested store.
    pub fn nodes(&self) -> (nodes: &Nodes<L, H>)
        ensures
            *nodes == self.nodes,
    {
        &self.nodes
    }

    /// The nested store, to render into, and the marker that every nested
    /// node is put before.
    pub fn nodes_mut_and_end_flag_node(&mut self) -> (parts: (&mut Nodes<L, H>, u64))
        ensures
            *parts.0 == old(self).nodes,
            parts.1 == old(self).end_flag_node,
            final(self).nodes == *final(parts.0),
            final(self).active_index == old(self).active_index,
            final(self).end_flag_node == old(self).end_flag_node,
    {
        let end_flag_node = self.end_flag_node;
        (&mut self.nodes, end_flag_node)
    }
}

} // verus!
