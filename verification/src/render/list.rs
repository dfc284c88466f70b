//! The cursors over the items of a list: items found again by position, and
//! items found again by key.

use crate::dom::copy::node_copy_ops;
use crate::dom::copy::node_copy_size;
use crate::dom::copy::node_copyable;
use crate::dom::copy::node_is_copy;
use crate::dom::document::Document;
use crate::dom::document::DomOp;
use crate::dom::document::DomOpView;
use crate::dom::element::Element;
use crate::dom::element::ElementStatus;
use crate::dom::element::str_view;
use crate::dom::keyed_list::KeyedList;
use crate::dom::keyed_list::ListItemKey;
use crate::dom::keyed_list::ListItemTemplate;
use crate::dom::keyed_list::Placement;
use crate::dom::keyed_list::created_size;
use crate::dom::keyed_list::item_size;
use crate::dom::keyed_list::keys_view;
use crate::dom::keyed_list::pattern;
use crate::dom::keyed_list::place_ops;
use crate::dom::keyed_list::placed_as;
use crate::dom::keyed_list::remaining;
use crate::dom::nodes::Node;
use crate::dom::nodes::Nodes;
use crate::dom::nodes::is_new_element;
use crate::dom::nodes::keyed_clear_ops;
use crate::dom::nodes::new_element_ops;
use crate::dom::nodes::nodes_clear_ops;
use crate::render::element::ElementRender;
use vstd::prelude::*;

verus! {

/// Walks the items of a list that are found again by position.
pub struct ListRender<'a, L, H> {
    /// The place of the next item.
    pub index: usize,
    /// The namespace and the tag that new items are made for.
    pub ns: Option<&'a str>,
    pub tag: &'a str,
    /// The display node that the items are under.
    pub parent: u64,
    /// The display node that new items are put before, if any.
    pub next_sibling: Option<u64>,
    /// Whether a new item is made as a copy of the first item.
    pub use_template: bool,
    /// The value that the parent, a selection element, is to get once the
    /// items are rendered.
    pub select_value: Option<String>,
    pub list: &'a mut Nodes<L, H>,
    pub doc: &'a mut Document,
}

/// Whether the next item of a list can be rendered: the place holds an
/// element or is the next new one, and the display has room for a new item.
pub open spec fn takes_item<L, H>(
    list: Seq<Node<L, H>>,
    index: int,
    use_template: bool,
    doc: Document,
) -> bool {
    &&& 0 <= index <= list.len()
    &&& index < list.len() ==> list[index] is Element
    &&& index == list.len() ==> if !use_template || list.len() == 0 {
        doc.has_room(1)
    } else {
        &&& list[0] is Element
        &&& node_copyable(list[0])
        &&& doc.has_room(node_copy_size(list[0]))
    }
}

impl<'a, L, H> ListRender<'a, L, H> {
    /// The walk over the next item. An item beyond those of the pass before
    /// is new: a copy of the first item where copying is asked for and a
    /// first item exists, else made for the tag.
    pub fn next_item(&mut self) -> (render: ElementRender<'_, L, H>)
        requires
            takes_item(
                old(self).list.0@,
                old(self).index as int,
                old(self).use_template,
                *old(self).doc,
            ),
            old(self).index < usize::MAX,
        ensures
            render.index == 0,
            render.update_mode,
            render.select_value is None,
            old(self).index < old(self).list.0@.len() ==> {
                &&& render.status == ElementStatus::Existing
                &&& *render.element == old(self).list.0@[old(self).index as int]->Element_0
                &&& *render.doc == *old(self).doc
                &&& final(self).list.0@ == old(self).list.0@.update(
                    old(self).index as int,
                    Node::Element(*final(render.element)),
                )
            },
            old(self).index == old(self).list.0@.len() ==> final(self).list.0@ == old(
                self,
            ).list.0@.push(Node::Element(*final(render.element))),
            old(self).index == old(self).list.0@.len() && (!old(self).use_template || old(
                self,
            ).list.0@.len() == 0) ==> {
                &&& render.status == ElementStatus::JustCreated
                &&& is_new_element(
                    Node::<L, H>::Element(*render.element),
                    old(self).doc@.next_node,
                    old(self).tag@,
                )
                &&& render.doc.created(
                    *old(self).doc,
                    1,
                    new_element_ops(
                        old(self).doc@.next_node,
                        str_view(old(self).ns),
                        old(self).tag@,
                        old(self).parent,
                        old(self).next_sibling,
                    ),
                )
            },
            old(self).index == old(self).list.0@.len() && old(self).use_template && old(
                self,
            ).list.0@.len() > 0 ==> {
                &&& render.status == ElementStatus::JustCloned
                &&& node_is_copy(
                    Node::<L, H>::Element(*render.element),
                    old(self).list.0@[0],
                    old(self).doc@.next_node,
                )
                &&& render.doc.created(
                    *old(self).doc,
                    node_copy_size(old(self).list.0@[0]),
                    node_copy_ops(old(self).list.0@[0], old(self).doc@.next_node) + seq![
                        DomOpView::InsertBefore {
                            parent: old(self).parent,
                            child: old(self).doc@.next_node as u64,
                            next_sibling: old(self).next_sibling,
                        },
                    ],
                )
            },
            *final(self).doc == *final(render.doc),
            final(self).index == old(self).index + 1,
            final(self).ns == old(self).ns,
            final(self).tag == old(self).tag,
            final(self).parent == old(self).parent,
            final(self).next_sibling == old(self).next_sibling,
            final(self).use_template == old(self).use_template,
            final(self).select_value == old(self).select_value,
            *final(final(self).list) == *final(old(self).list),
            *final(final(self).doc) == *final(old(self).doc),
    {
        let status = self.list.check_or_create_element_for_list(
            self.ns,
            self.tag,
            self.index,
            self.parent,
            self.next_sibling,
            self.use_template,
            self.doc,
        );
        let ghost mid = self.list.0@;
        proof {
            if old(self).index == old(self).list.0@.len() {
                assert(mid[old(self).index as int] == mid.last());
            }
        }
        let element = self.list.get_element_mut(self.index);
        proof {
            if old(self).index == old(self).list.0@.len() {
                assert(mid.subrange(0, old(self).list.0@.len() as int) == old(self).list.0@);
                assert(mid.update(old(self).index as int, Node::Element(*final(element)))
                    =~= old(self).list.0@.push(Node::Element(*final(element))));
            }
        }
        self.index += 1;
        ElementRender::new(element, self.doc, status)
    }

    /// Ends the walk: the items of the pass before that were not visited
    /// are taken away, and a selection element then gets the value that was
    /// put off.
    pub fn finish(self)
        requires
            self.index <= old(self.list).0@.len(),
        ensures
            final(self.list).0@ == old(self.list).0@.subrange(0, self.index as int),
            final(self.doc).recorded(
                *old(self.doc),
                nodes_clear_ops(
                    old(self.list).0@.subrange(self.index as int, old(self.list).0@.len() as int),
                    (old(self.list).0@.len() - self.index) as nat,
                    self.parent,
                ) + match self.select_value {
                    Some(value) => seq![DomOpView::SetValue { node: self.parent, text: value@ }],
                    None => Seq::empty(),
                },
            ),
    {
        let ghost before = *self.doc;
        self.list.clear_after(self.index, self.parent, self.doc);
        let ghost cleared = nodes_clear_ops(
            old(self.list).0@.subrange(self.index as int, old(self.list).0@.len() as int),
            (old(self.list).0@.len() - self.index) as nat,
            self.parent,
        );
        match self.select_value {
            Some(value) => {
                let ghost between = *self.doc;
                self.doc.record(DomOp::SetValue { node: self.parent, text: value });
                proof {
                    self.doc.lemma_recorded_twice(
                        before,
                        between,
                        cleared,
                        seq![DomOpView::SetValue { node: self.parent, text: value@ }],
                    );
                }
            },
            None => {
                assert(cleared + Seq::<DomOpView>::empty() =~= cleared);
            },
        }
    }
}

/// Walks the items of a list that are found again by key.
pub struct KeyedListRender<'a, L, H> {
    /// The namespace and the tag that new items are made for.
    pub ns: Option<&'a str>,
    pub tag: &'a str,
    /// The display node that the items are under.
    pub parent: u64,
    /// The display node that follows the items, if any.
    pub next_sibling: Option<u64>,
    /// Whether a new item is made as a copy of the template.
    pub use_template: bool,
    /// For each item of this pass, the status to render its content with.
    pub statuses: Vec<ElementStatus>,
    /// The value that the parent, a selection element, is to get once the
    /// items are rendered.
    pub select_value: Option<String>,
    pub list: &'a mut KeyedList<L, H>,
    pub doc: &'a mut Document,
}

impl<'a, L, H> KeyedListRender<'a, L, H> {
    /// Whether the list has a template that has to be rendered before new
    /// items are copied from it.
    pub fn require_init_template(&self) -> (init: bool)
        ensures
            init == (old(self.list).template matches Some(t) && !t.rendered),
    {
        match &self.list.template {
            Some(t) => !t.rendered,
            None => false,
        }
    }

    /// The walk over the template, to render it as an item is rendered.
    pub fn template_render(&mut self) -> (render: ElementRender<'_, L, H>)
        requires
            old(self).list.template is Some,
        ensures
            render.status == ElementStatus::JustCreated,
            render.index == 0,
            render.update_mode,
            render.select_value is None,
            *render.element == old(self).list.template->Some_0.element,
            *render.doc == *old(self).doc,
            final(self).list.template == Some(
                ListItemTemplate {
                    rendered: old(self).list.template->Some_0.rendered,
                    element: *final(render.element),
                },
            ),
            final(self).list.active == old(self).list.active,
            final(self).list.buffer == old(self).list.buffer,
            *final(self).doc == *final(render.doc),
            final(self).ns == old(self).ns,
            final(self).tag == old(self).tag,
            final(self).parent == old(self).parent,
            final(self).next_sibling == old(self).next_sibling,
            final(self).use_template == old(self).use_template,
            final(self).statuses == old(self).statuses,
            final(self).select_value == old(self).select_value,
            *final(final(self).list) == *final(old(self).list),
            *final(final(self).doc) == *final(old(self).doc),
    {
        match &mut self.list.template {
            Some(t) => ElementRender::new(&mut t.element, self.doc, ElementStatus::JustCreated),
            None => vstd::pervasive::unreached(),
        }
    }

    /// Tells that the template was rendered: from now on new items are
    /// copies of it.
    pub fn template_rendered(&mut self)
        requires
            old(self).list.template is Some,
        ensures
            final(self).list.template == Some(
                ListItemTemplate {
                    rendered: true,
                    element: old(self).list.template->Some_0.element,
                },
            ),
            final(self).list.active == old(self).list.active,
            final(self).list.buffer == old(self).list.buffer,
            *final(self).doc == *old(self).doc,
            final(self).ns == old(self).ns,
            final(self).tag == old(self).tag,
            final(self).parent == old(self).parent,
            final(self).next_sibling == old(self).next_sibling,
            final(self).use_template == old(self).use_template,
            final(self).statuses == old(self).statuses,
            final(self).select_value == old(self).select_value,
            *final(final(self).list) == *final(old(self).list),
            *final(final(self).doc) == *final(old(self).doc),
    {
        match &mut self.list.template {
            Some(t) => {
                t.rendered = true;
            },
            None => {},
        }
    }

    /// Puts the elements of the items of `keys` in place, in their order:
    /// an item whose key was there in the pass before keeps its element,
    /// the others are made, as copies of the template only where the walk
    /// was opened for that, and the elements whose keys are gone are taken
    /// away. The content of the items is rendered afterwards, item by item.
    pub fn update(&mut self, keys: &Vec<ListItemKey>)
        requires
            old(self).doc.has_room(
                created_size(
                    old(self).list.active@,
                    keys_view(keys@),
                    keys@.len(),
                    item_size(pattern(old(self).list.template, old(self).use_template)),
                ),
            ),
            pattern(old(self).list.template, old(self).use_template) matches Some(e)
                ==> node_copyable(Node::Element(e)),
        ensures
            final(self).list.template == old(self).list.template,
            final(self).list.active@.len() == keys@.len(),
            final(self).statuses@.len() == keys@.len(),
            forall|i: int|
                0 <= i < keys@.len() ==> placed_as(
                    #[trigger] final(self).list.active@[i],
                    final(self).statuses@[i],
                    keys@[i]@,
                    remaining(old(self).list.active@, keys_view(keys@), i as nat),
                    Placement {
                        pattern: pattern(old(self).list.template, old(self).use_template),
                        ns: str_view(old(self).ns),
                        tag: old(self).tag@,
                        parent: old(self).parent,
                        next_sibling: old(self).next_sibling,
                    },
                    old(self).doc@.next_node + created_size(
                        old(self).list.active@,
                        keys_view(keys@),
                        i as nat,
                        item_size(pattern(old(self).list.template, old(self).use_template)),
                    ),
                ),
            final(self).list.buffer@.len() == old(self).list.active@.len(),
            forall|i: int|
                0 <= i < old(self).list.active@.len() ==> final(self).list.buffer@[i] is None,
            final(self).doc.created(
                *old(self).doc,
                created_size(
                    old(self).list.active@,
                    keys_view(keys@),
                    keys@.len(),
                    item_size(pattern(old(self).list.template, old(self).use_template)),
                ),
                place_ops(
                    old(self).list.active@,
                    keys_view(keys@),
                    keys@.len(),
                    Placement {
                        pattern: pattern(old(self).list.template, old(self).use_template),
                        ns: str_view(old(self).ns),
                        tag: old(self).tag@,
                        parent: old(self).parent,
                        next_sibling: old(self).next_sibling,
                    },
                    old(self).doc@.next_node,
                ) + keyed_clear_ops(
                    remaining(old(self).list.active@, keys_view(keys@), keys@.len()),
                    old(self).list.active@.len(),
                    old(self).parent,
                ),
            ),
            final(self).ns == old(self).ns,
            final(self).tag == old(self).tag,
            final(self).parent == old(self).parent,
            final(self).next_sibling == old(self).next_sibling,
            final(self).use_template == old(self).use_template,
            final(self).select_value == old(self).select_value,
            *final(final(self).list) == *final(old(self).list),
            *final(final(self).doc) == *final(old(self).doc),
    {
        self.statuses = self.list.reconcile(
            keys,
            self.ns,
            self.tag,
            self.parent,
            self.next_sibling,
            self.use_template,
            self.doc,
        );
    }

    /// The walk over the item at `index`, with the status that it was put
    /// in place with.
    pub fn item_render(&mut self, index: usize) -> (render: ElementRender<'_, L, H>)
        requires
            index < old(self).list.active@.len(),
            index < old(self).statuses@.len(),
            old(self).list.active@[index as int] is Some,
        ensures
            render.status == old(self).statuses@[index as int],
            render.index == 0,
            render.update_mode,
            render.select_value is None,
            *render.element == old(self).list.active@[index as int]->Some_0.element,
            *render.doc == *old(self).doc,
            final(self).list.active@.len() == old(self).list.active@.len(),
            forall|i: int|
                0 <= i < old(self).list.active@.len() && i != index
                    ==> final(self).list.active@[i] == old(self).list.active@[i],
            final(self).list.active@[index as int] matches Some(item) && item.key == old(
                self,
            ).list.active@[index as int]->Some_0.key && item.element == *final(render.element),
            final(self).list.template == old(self).list.template,
            final(self).list.buffer == old(self).list.buffer,
            *final(self).doc == *final(render.doc),
            final(self).ns == old(self).ns,
            final(self).tag == old(self).tag,
            final(self).parent == old(self).parent,
            final(self).next_sibling == old(self).next_sibling,
            final(self).use_template == old(self).use_template,
            final(self).statuses == old(self).statuses,
            final(self).select_value == old(self).select_value,
            *final(final(self).list) == *final(old(self).list),
            *final(final(self).doc) == *final(old(self).doc),
    {
        let status = self.statuses[index];
        match &mut self.list.active[index] {
            Some(item) => ElementRender::new(&mut item.element, self.doc, status),
            None => vstd::pervasive::unreached(),
        }
    }

    /// Ends the walk: a selection element gets the value that was put off.
    pub fn finish(self)
        ensures
            *final(self.list) == *old(self.list),
            final(self.doc).recorded(
                *old(self.doc),
                match self.select_value {
                    Some(value) => seq![DomOpView::SetValue { node: self.parent, text: value@ }],
                    None => Seq::empty(),
                },
            ),
    {
        match self.select_value {
            Some(value) => {
                self.doc.record(DomOp::SetValue { node: self.parent, text: value });
            },
            None => {
                assert(self.doc@.ops + Seq::<DomOpView>::empty() =~= self.doc@.ops);
            },
        }
    }
}

} // verus!
