//! The platform side of the engine, as data.
//!
//! Every node of the display is named by a number that the [`Document`] hands
//! out. Whatever the engine wants done to the display is appended to the
//! document as a [`DomOp`]; the owner of the display takes the operations and
//! replays them in order.

use vstd::prelude::*;

verus! {

/// A value written to an attribute of a display element.
#[derive(Debug, PartialEq, Eq)]
pub enum Value {
    Str(String),
    I32(i32),
    U32(u32),
    /// The bits of a 64-bit float.
    F64(u64),
}

/// The mathematical value of a [`Value`].
pub enum ValueView {
    Str(Seq<char>),
    I32(i32),
    U32(u32),
    F64(u64),
}

impl View for Value {
    type V = ValueView;

    open spec fn view(&self) -> ValueView {
        match *self {
            Value::Str(s) => ValueView::Str(s@),
            Value::I32(v) => ValueView::I32(v),
            Value::U32(v) => ValueView::U32(v),
            Value::F64(v) => ValueView::F64(v),
        }
    }
}

/// One operation on the display.
#[derive(Debug, PartialEq, Eq)]
pub enum DomOp {
    /// Make an element with the given tag, in the given namespace if any.
    CreateElement { node: u64, namespace: Option<String>, tag: String },
    /// Make a text node.
    CreateText { node: u64, text: String },
    /// Make the invisible node that marks the end of a fragment.
    CreateMarker { node: u64 },
    /// Make `node` a copy of `source` without its children and listeners.
    CloneNode { source: u64, node: u64 },
    /// Put `child` under `parent`, before `next_sibling` or last.
    InsertBefore { parent: u64, child: u64, next_sibling: Option<u64> },
    /// Take `child` away from `parent`.
    RemoveChild { parent: u64, child: u64 },
    /// Replace all that is under `node` by the text, or by nothing.
    SetTextContent { node: u64, content: Option<String> },
    SetAttribute { node: u64, name: String, value: Value },
    RemoveAttribute { node: u64, name: String },
    AddClass { node: u64, name: String },
    RemoveClass { node: u64, name: String },
    SetChecked { node: u64, checked: bool },
    SetValue { node: u64, text: String },
    Focus { node: u64 },
    SetId { node: u64, id: String },
}

/// The mathematical value of a [`DomOp`].
pub enum DomOpView {
    CreateElement { node: u64, namespace: Option<Seq<char>>, tag: Seq<char> },
    CreateText { node: u64, text: Seq<char> },
    CreateMarker { node: u64 },
    CloneNode { source: u64, node: u64 },
    InsertBefore { parent: u64, child: u64, next_sibling: Option<u64> },
    RemoveChild { parent: u64, child: u64 },
    SetTextContent { node: u64, content: Option<Seq<char>> },
    SetAttribute { node: u64, name: Seq<char>, value: ValueView },
    RemoveAttribute { node: u64, name: Seq<char> },
    AddClass { node: u64, name: Seq<char> },
    RemoveClass { node: u64, name: Seq<char> },
    SetChecked { node: u64, checked: bool },
    SetValue { node: u64, text: Seq<char> },
    Focus { node: u64 },
    SetId { node: u64, id: Seq<char> },
}

/// The view of an optional string.
pub open spec fn text_view(text: Option<String>) -> Option<Seq<char>> {
    match text {
        Some(s) => Some(s@),
        None => None,
    }
}

impl View for DomOp {
    type V = DomOpView;

    open spec fn view(&self) -> DomOpView {
        match *self {
            DomOp::CreateElement { node, namespace, tag } => DomOpView::CreateElement {
                node,
                namespace: text_view(namespace),
                tag: tag@,
            },
            DomOp::CreateText { node, text } => DomOpView::CreateText { node, text: text@ },
            DomOp::CreateMarker { node } => DomOpView::CreateMarker { node },
            DomOp::CloneNode { source, node } => DomOpView::CloneNode { source, node },
            DomOp::InsertBefore { parent, child, next_sibling } => DomOpView::InsertBefore {
                parent,
                child,
                next_sibling,
            },
            DomOp::RemoveChild { parent, child } => DomOpView::RemoveChild { parent, child },
            DomOp::SetTextContent { node, content } => DomOpView::SetTextContent {
                node,
                content: text_view(content),
            },
            DomOp::SetAttribute { node, name, value } => DomOpView::SetAttribute {
                node,
                name: name@,
                value: value@,
            },
            DomOp::RemoveAttribute { node, name } => DomOpView::RemoveAttribute {
                node,
                name: name@,
            },
            DomOp::AddClass { node, name } => DomOpView::AddClass { node, name: name@ },
            DomOp::RemoveClass { node, name } => DomOpView::RemoveClass { node, name: name@ },
            DomOp::SetChecked { node, checked } => DomOpView::SetChecked { node, checked },
            DomOp::SetValue { node, text } => DomOpView::SetValue { node, text: text@ },
            DomOp::Focus { node } => DomOpView::Focus { node },
            DomOp::SetId { node, id } => DomOpView::SetId { node, id: id@ },
        }
    }
}

/// The views of a sequence of operations.
pub open spec fn ops_view(ops: Seq<DomOp>) -> Seq<DomOpView> {
    ops.map_values(|op: DomOp| op@)
}

/// What a [`Document`] stands for: the number of the next node it will hand
/// out, and the operations recorded and not yet taken.
pub struct DocumentView {
    pub next_node: nat,
    pub ops: Seq<DomOpView>,
}

/// Hands out node numbers and records the operations on the display.
pub struct Document {
    next_node: u64,
    ops: Vec<DomOp>,
}

impl View for Document {
    type V = DocumentView;

    closed spec fn view(&self) -> DocumentView {
        DocumentView { next_node: self.next_node as nat, ops: ops_view(self.ops@) }
    }
}

impl Document {
    /// Whether `count` more node numbers can be handed out.
    pub open spec fn has_room(&self, count: nat) -> bool {
        self@.next_node + count <= u64::MAX
    }

    /// Whether this document is `before` with `ops` recorded after what
    /// `before` held, and no node number handed out.
    pub open spec fn recorded(&self, before: Document, ops: Seq<DomOpView>) -> bool {
        self@.next_node == before@.next_node && self@.ops == before@.ops + ops
    }

    /// Whether this document is `before` with `count` node numbers handed
    /// out and `ops` recorded after what `before` held.
    pub open spec fn created(&self, before: Document, count: nat, ops: Seq<DomOpView>) -> bool {
        self@.next_node == before@.next_node + count && self@.ops == before@.ops + ops
    }

    /// What is recorded in two steps is recorded in one.
    pub proof fn lemma_recorded_twice(
        self,
        before: Document,
        between: Document,
        first: Seq<DomOpView>,
        second: Seq<DomOpView>,
    )
        requires
            between.recorded(before, first),
            self.recorded(between, second),
        ensures
            self.recorded(before, first + second),
    {
        assert(self@.ops =~= before@.ops + (first + second));
    }

    /// A document that has handed out no number and recorded nothing.
    pub fn new() -> (doc: Document)
        ensures
            doc@.next_node == 0,
            doc@.ops == Seq::<DomOpView>::empty(),
    {
        let doc = Document { next_node: 0, ops: Vec::new() };
        assert(doc@.ops =~= Seq::<DomOpView>::empty());
        doc
    }

    /// The number that the next new node will get.
    pub fn next_node(&self) -> (next: u64)
        ensures
            next == self@.next_node,
    {
        self.next_node
    }

    /// How many more node numbers can be handed out.
    pub fn room(&self) -> (count: u64)
        ensures
            count == u64::MAX - self@.next_node,
    {
        u64::MAX - self.next_node
    }

    /// How many operations wait to be taken.
    pub fn pending(&self) -> (count: usize)
        ensures
            count == self@.ops.len(),
    {
        self.ops.len()
    }

    /// Hands out a fresh node number. Nothing is recorded: the caller either
    /// records how the node is made, or stands for a node that the display
    /// already has.
    pub fn new_node(&mut self) -> (node: u64)
        requires
            old(self).has_room(1),
        ensures
            node == old(self)@.next_node,
            final(self)@.next_node == old(self)@.next_node + 1,
            final(self)@.ops == old(self)@.ops,
    {
        let node = self.next_node;
        self.next_node = node + 1;
        node
    }

    /// Records one operation.
    pub fn record(&mut self, op: DomOp)
        ensures
            final(self).recorded(*old(self), seq![op@]),
    {
        self.ops.push(op);
        assert(final(self)@.ops =~= old(self)@.ops + seq![op@]);
    }

    /// Hands over the recorded operations, oldest first, and forgets them.
    pub fn take_ops(&mut self) -> (ops: Vec<DomOp>)
        ensures
            ops_view(ops@) == old(self)@.ops,
            final(self)@.ops == Seq::<DomOpView>::empty(),
            final(self)@.next_node == old(self)@.next_node,
    {
        let mut ops: Vec<DomOp> = Vec::new();
        core::mem::swap(&mut ops, &mut self.ops);
        assert(final(self)@.ops =~= Seq::<DomOpView>::empty());
        ops
    }

    /// Records that `child` goes under `parent`, before `next_sibling` or last.
    pub fn insert_before(&mut self, parent: u64, child: u64, next_sibling: Option<u64>)
        ensures
            final(self).recorded(
                *old(self),
                seq![DomOpView::InsertBefore { parent, child, next_sibling }],
            ),
    {
        self.record(DomOp::InsertBefore { parent, child, next_sibling });
    }

    /// Records that `child` goes last under `parent`.
    pub fn append_child(&mut self, parent: u64, child: u64)
        ensures
            final(self).recorded(
                *old(self),
                seq![DomOpView::InsertBefore { parent, child, next_sibling: None }],
            ),
    {
        self.record(DomOp::InsertBefore { parent, child, next_sibling: None });
    }

    /// Records that `child` leaves `parent`.
    pub fn remove_child(&mut self, parent: u64, child: u64)
        ensures
            final(self).recorded(*old(self), seq![DomOpView::RemoveChild { parent, child }]),
    {
        self.record(DomOp::RemoveChild { parent, child });
    }
}

} // verus!
