//! A whole render pass over an element and what is under it.
//!
//! A render function is code of the caller: it declares attributes and
//! children on the cursors, one after the other. What it declares in one
//! pass is told here as a value, so that something can be said of the pass
//! as a whole: a pass over an element that shows what the pass declares
//! writes nothing to the display, anywhere under the element.

use crate::dom::attributes::lemma_rendered;
use crate::dom::attributes::pass_writes;
use crate::dom::attributes::AttributeView;
use crate::dom::document::DomOpView;
use crate::dom::element::Element;
use crate::dom::nodes::update_text_ops;
use crate::dom::nodes::Node;
use vstd::prelude::*;

verus! {

/// What a render function declares on one element in one pass: the values
/// of its attributes, in the order of their positions, and its children, in
/// the order of their slots.
pub struct Pass<L> {
    pub attributes: Seq<AttributeView<L>>,
    pub children: Seq<PassChild<L>>,
}

/// What a render function declares for one slot: a text that may change, or
/// an element with what is declared on it.
pub enum PassChild<L> {
    Text(Seq<char>),
    Element(Pass<L>),
}

/// Whether the element shows what the pass declares: its cache holds the
/// values of the attributes at their positions, and its slots hold the
/// children, each showing what is declared for it.
pub open spec fn shows<L, H>(element: Element<L, H>, pass: Pass<L>) -> bool
    decreases pass,
{
    &&& pass.attributes.len() <= element.attributes@.len()
    &&& forall|i: int|
        0 <= i < pass.attributes.len() ==> #[trigger] element.attributes@[i] == pass.attributes[i]
    &&& pass.children.len() == element.nodes.0@.len()
    &&& children_show(element.nodes.0@, pass.children, pass.children.len())
}

/// Whether the first `count` slots show the first `count` children.
pub open spec fn children_show<L, H>(
    nodes: Seq<Node<L, H>>,
    children: Seq<PassChild<L>>,
    count: nat,
) -> bool
    decreases children, count,
{
    if count == 0 || count > children.len() || count > nodes.len() {
        count == 0
    } else {
        &&& children_show(nodes, children, (count - 1) as nat)
        &&& match children[count - 1] {
            PassChild::Text(text) => nodes[count - 1] matches Node::Text(t) && t.text@ == text,
            PassChild::Element(pass) => nodes[count - 1] matches Node::Element(e) && shows(
                e,
                pass,
            ),
        }
    }
}

/// The number of positions among the first `count` at which a pass that
/// declares `values` writes the display.
pub open spec fn attribute_writes<L>(
    cache: Seq<AttributeView<L>>,
    values: Seq<AttributeView<L>>,
    count: nat,
) -> nat
    decreases count,
{
    if count == 0 || count > values.len() {
        0
    } else {
        attribute_writes(cache, values, (count - 1) as nat) + if pass_writes(
            cache,
            values,
            (count - 1) as nat,
        ) {
            1nat
        } else {
            0nat
        }
    }
}

/// The number of writes to the display that the pass makes on an element
/// that is there already, and on everything under it: one for each
/// attribute whose value differs from the cache, one for each text that
/// differs from the text last written.
pub open spec fn writes<L, H>(element: Element<L, H>, pass: Pass<L>) -> nat
    decreases pass,
{
    attribute_writes(element.attributes@, pass.attributes, pass.attributes.len())
        + children_writes(element.nodes.0@, pass.children, pass.children.len())
}

/// The number of writes to the display that the pass makes on the first
/// `count` slots, each of which is there already.
pub open spec fn children_writes<L, H>(
    nodes: Seq<Node<L, H>>,
    children: Seq<PassChild<L>>,
    count: nat,
) -> nat
    decreases children, count,
{
    if count == 0 || count > children.len() || count > nodes.len() {
        0
    } else {
        children_writes(nodes, children, (count - 1) as nat) + match children[count - 1] {
            PassChild::Text(text) => update_text_ops(nodes, count - 1, text, 0, None, 0).len(),
            PassChild::Element(pass) => match nodes[count - 1] {
                Node::Element(e) => writes(e, pass),
                _ => 0,
            },
        }
    }
}

/// Attributes that the cache holds already are written nowhere.
pub proof fn lemma_attributes_again<L>(
    cache: Seq<AttributeView<L>>,
    values: Seq<AttributeView<L>>,
    count: nat,
)
    requires
        count <= values.len() <= cache.len(),
        forall|i: int| 0 <= i < values.len() ==> #[trigger] cache[i] == values[i],
    ensures
        attribute_writes(cache, values, count) == 0,
    decreases count,
{
    if count > 0 {
        lemma_attributes_again(cache, values, (count - 1) as nat);
        lemma_rendered(cache, values, (count - 1) as nat);
        assert(cache[count - 1] == values[count - 1]);
    }
}

/// Rendering again, with nothing changed, writes nothing: a pass over an
/// element that shows what the pass declares makes no write to the display,
/// neither on the element nor anywhere under it.
pub proof fn lemma_pass_again_writes_nothing<L, H>(element: Element<L, H>, pass: Pass<L>)
    requires
        shows(element, pass),
    ensures
        writes(element, pass) == 0,
    decreases pass,
{
    lemma_attributes_again(element.attributes@, pass.attributes, pass.attributes.len());
    lemma_children_again(element.nodes.0@, pass.children, pass.children.len());
}

/// The children of a pass that the slots show already are written nowhere.
pub proof fn lemma_children_again<L, H>(
    nodes: Seq<Node<L, H>>,
    children: Seq<PassChild<L>>,
    count: nat,
)
    requires
        children_show(nodes, children, count),
    ensures
        children_writes(nodes, children, count) == 0,
    decreases children, count,
{
    if !(count == 0 || count > children.len() || count > nodes.len()) {
        lemma_children_again(nodes, children, (count - 1) as nat);
        match children[count - 1] {
            PassChild::Text(text) => {
                assert(update_text_ops(nodes, count - 1, text, 0, None, 0) =~= Seq::<
                    DomOpView,
                >::empty());
            },
            PassChild::Element(pass) => {
                lemma_pass_again_writes_nothing(nodes[count - 1]->Element_0, pass);
            },
        }
    }
}

} // verus!
