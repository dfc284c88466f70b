//! Elements and texts of the display, with what the engine remembers of
//! them.

use crate::dom::attributes::AttributeList;
use crate::dom::document::Document;
use crate::dom::document::DomOp;
use crate::dom::document::DomOpView;
use crate::dom::nodes::Nodes;
use crate::dom::nodes::nodes_append_ops;
use vstd::prelude::*;

verus! {

/// How an element came to the position at which a render pass finds it.
#[derive(Clone, Copy, PartialEq, Eq, Structural, Debug)]
pub enum ElementStatus {
    /// Made in this pass, from nothing.
    JustCreated,
    /// There since an earlier pass.
    Existing,
    /// Made in this pass, as a copy of a sibling.
    JustCloned,
}

/// The kinds of element that take a value or a checked state.
#[derive(Clone, Copy, PartialEq, Eq, Structural, Debug)]
pub enum ElementType {
    Input,
    Select,
    TextArea,
    Other,
}

/// The kind of element that a tag makes.
pub open spec fn element_type_of(tag: Seq<char>) -> ElementType {
    if tag == "input"@ {
        ElementType::Input
    } else if tag == "select"@ {
        ElementType::Select
    } else if tag == "textarea"@ {
        ElementType::TextArea
    } else {
        ElementType::Other
    }
}

/// The view of an optional string slice.
pub open spec fn str_view(text: Option<&str>) -> Option<Seq<char>> {
    match text {
        Some(s) => Some(s@),
        None => None,
    }
}

/// An element of the display with what the engine remembers of it.
pub struct Element<L, H> {
    /// The number of the display node.
    pub ws_element: u64,
    pub element_type: ElementType,
    pub attributes: AttributeList<L>,
    pub nodes: Nodes<L, H>,
}

/// A text node of the display with the text last written to it.
pub struct TextNode {
    pub text: String,
    /// The number of the display node.
    pub ws_node: u64,
}

/// The kind of element that a tag makes.
pub fn element_type(tag: &str) -> (kind: ElementType)
    ensures
        kind == element_type_of(tag@),
{
    let tag: String = tag.to_owned();
    if tag == "input".to_owned() {
        ElementType::Input
    } else if tag == "select".to_owned() {
        ElementType::Select
    } else if tag == "textarea".to_owned() {
        ElementType::TextArea
    } else {
        ElementType::Other
    }
}

impl<L, H> Element<L, H> {
    /// A new element without attributes and children. The display makes it,
    /// under no parent yet.
    pub fn new_ns(ns: Option<&str>, tag: &str, doc: &mut Document) -> (element: Element<L, H>)
        requires
            old(doc).has_room(1),
        ensures
            element.ws_element == old(doc)@.next_node,
            element.element_type == element_type_of(tag@),
            element.attributes@.len() == 0,
            element.nodes.0@.len() == 0,
            final(doc).created(
                *old(doc),
                1,
                seq![
                    DomOpView::CreateElement {
                        node: element.ws_element,
                        namespace: str_view(ns),
                        tag: tag@,
                    },
                ],
            ),
    {
        let node = doc.new_node();
        let namespace: Option<String> = match ns {
            Some(s) => Some(s.to_owned()),
            None => None,
        };
        doc.record(DomOp::CreateElement { node, namespace, tag: tag.to_owned() });
        Element {
            ws_element: node,
            element_type: element_type(tag),
            attributes: AttributeList::new(),
            nodes: Nodes(Vec::new()),
        }
    }

    /// What the engine remembers of an element that the display already has:
    /// nothing yet.
    pub fn from_ws_element(ws_element: u64, element_type: ElementType) -> (element: Element<L, H>)
        ensures
            element.ws_element == ws_element,
            element.element_type == element_type,
            element.attributes@.len() == 0,
            element.nodes.0@.len() == 0,
    {
        Element {
            ws_element,
            element_type,
            attributes: AttributeList::new(),
            nodes: Nodes(Vec::new()),
        }
    }

    /// Makes the display element `ws_element` the one that this element
    /// stands for, and puts the children under it.
    pub fn replace_ws_element(
        &mut self,
        ws_element: u64,
        element_type: ElementType,
        doc: &mut Document,
    )
        ensures
            final(self).ws_element == ws_element,
            final(self).element_type == element_type,
            final(self).attributes == old(self).attributes,
            final(self).nodes == old(self).nodes,
            final(doc).recorded(
                *old(doc),
                nodes_append_ops(old(self).nodes.0@, old(self).nodes.0@.len(), ws_element),
            ),
    {
        self.ws_element = ws_element;
        self.element_type = element_type;
        self.nodes.append_to(ws_element, doc);
    }

    /// Whether nothing was rendered under this element yet.
    pub fn is_empty(&self) -> (empty: bool)
        ensures
            empty == (self.nodes.0@.len() == 0),
    {
        self.nodes.count() == 0
    }

    /// Puts the element under `parent`, before `next_sibling` or last.
    pub fn insert_before(&self, parent: u64, next_sibling: Option<u64>, doc: &mut Document)
        ensures
            final(doc).recorded(
                *old(doc),
                seq![DomOpView::InsertBefore { parent, child: self.ws_element, next_sibling }],
            ),
    {
        doc.insert_before(parent, self.ws_element, next_sibling);
    }

    /// Puts the element last under `parent`.
    pub fn append_to(&self, parent: u64, doc: &mut Document)
        ensures
            final(doc).recorded(
                *old(doc),
                seq![
                    DomOpView::InsertBefore { parent, child: self.ws_element, next_sibling: None },
                ],
            ),
    {
        doc.append_child(parent, self.ws_element);
    }

    /// Takes the element away from `parent`.
    pub fn remove_from(&self, parent: u64, doc: &mut Document)
        ensures
            final(doc).recorded(
                *old(doc),
                seq![DomOpView::RemoveChild { parent, child: self.ws_element }],
            ),
    {
        doc.remove_child(parent, self.ws_element);
    }
}

impl TextNode {
    /// A new text node. The display makes it, under no parent yet.
    pub fn new(text: &str, doc: &mut Document) -> (node: TextNode)
        requires
            old(doc).has_room(1),
        ensures
            node.ws_node == old(doc)@.next_node,
            node.text@ == text@,
            final(doc).created(
                *old(doc),
                1,
                seq![DomOpView::CreateText { node: node.ws_node, text: text@ }],
            ),
    {
        let ws_node = doc.new_node();
        doc.record(DomOp::CreateText { node: ws_node, text: text.to_owned() });
        TextNode { text: text.to_owned(), ws_node }
    }

    /// Writes `text` to the display if it differs from the text last written.
    pub fn update_text(&mut self, text: &str, doc: &mut Document)
        ensures
            final(self).ws_node == old(self).ws_node,
            final(self).text@ == text@,
            final(doc).recorded(
                *old(doc),
                if old(self).text@ == text@ {
                    Seq::<DomOpView>::empty()
                } else {
                    seq![
                        DomOpView::SetTextContent { node: old(self).ws_node, content: Some(text@) },
                    ]
                },
            ),
    {
        let new_text: String = text.to_owned();
        if self.text != new_text {
            doc.record(
                DomOp::SetTextContent { node: self.ws_node, content: Some(text.to_owned()) },
            );
            self.text = new_text;
        } else {
            assert(doc@.ops + Seq::<DomOpView>::empty() =~= doc@.ops);
        }
    }

    /// Puts the text node under `parent`, before `next_sibling` or last.
    pub fn insert_before(&self, parent: u64, next_sibling: Option<u64>, doc: &mut Document)
        ensures
            final(doc).recorded(
                *old(doc),
                seq![DomOpView::InsertBefore { parent, child: self.ws_node, next_sibling }],
            ),
    {
        doc.insert_before(parent, self.ws_node, next_sibling);
    }
}

} // verus!
