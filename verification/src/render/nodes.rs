//! The cursors over the children of an element: plain children by
//! position, the arms of a conditional, and the items of a list.

use crate::dom::document::Document;
use crate::dom::element::Element;
use crate::dom::element::ElementStatus;
use crate::dom::element::str_view;
use crate::dom::nodes::GroupedNodes;
use crate::dom::nodes::Node;
use crate::dom::nodes::Nodes;
use crate::dom::nodes::is_new_element;
use crate::dom::nodes::is_new_group;
use crate::dom::nodes::is_new_text;
use crate::dom::nodes::new_element_ops;
use crate::dom::nodes::new_group_ops;
use crate::dom::nodes::new_text_ops;
use crate::dom::nodes::nodes_clear_ops;
use crate::dom::nodes::one_if;
use crate::dom::nodes::one_more;
use crate::dom::nodes::text_rendered;
use crate::dom::nodes::update_text_ops;
use crate::render::element::ElementRender;
use crate::render::list::ListRender;
use vstd::prelude::*;

verus! {

/// Walks the children of one parent, slot by slot.
pub struct NodesRender<'a, L, H> {
    /// Whether what is rendered may differ from pass to pass.
    pub update_mode: bool,
    /// The slot that the next child takes.
    pub index: usize,
    pub parent_status: ElementStatus,
    /// The display node that the children are under.
    pub parent: u64,
    /// The display node that new children are put before, if any.
    pub next_sibling: Option<u64>,
    pub nodes: &'a mut Nodes<L, H>,
    pub doc: &'a mut Document,
}

/// Renders one arm of a conditional into a fragment.
pub struct MatchIfRender<'a, L, H> {
    /// The display node that the fragment is under.
    pub parent: u64,
    pub match_if: &'a mut GroupedNodes<L, H>,
    pub doc: &'a mut Document,
}

impl<'a, L, H> NodesRender<'a, L, H> {
    /// The display node that the children are under.
    pub fn parent(&self) -> (parent: u64)
        ensures
            parent == self.parent,
    {
        self.parent
    }

    /// From here on, what is rendered never changes after it was made.
    pub fn set_static_mode(&mut self)
        ensures
            *final(self) == (NodesRender { update_mode: false, ..*old(self) }),
    {
        self.update_mode = false;
    }

    /// From here on, what is rendered may differ from pass to pass.
    pub fn set_update_mode(&mut self)
        ensures
            *final(self) == (NodesRender { update_mode: true, ..*old(self) }),
    {
        self.update_mode = true;
    }

    /// Whether the render function has anything to do for the next child:
    /// always in update mode; in static mode only under a parent that was
    /// just made.
    pub fn require_render(&self) -> (render: bool)
        ensures
            render == (self.update_mode || self.parent_status == ElementStatus::JustCreated),
    {
        if self.update_mode {
            true
        } else {
            matches!(self.parent_status, ElementStatus::JustCreated)
        }
    }

    /// Passes over one slot.
    pub fn next_index(&mut self)
        requires
            old(self).index < usize::MAX,
        ensures
            *final(self) == (NodesRender { index: (old(self).index + 1) as usize, ..*old(self) }),
    {
        self.index += 1;
    }

    /// Renders a text that may change into the next slot.
    pub fn update_text(&mut self, text: &str)
        requires
            old(self).index <= old(self).nodes.0@.len(),
            old(self).index < old(self).nodes.0@.len() ==> old(self).nodes.0@[old(
                self,
            ).index as int] is Text,
            old(self).index == old(self).nodes.0@.len() ==> old(self).doc.has_room(1),
            old(self).index < usize::MAX,
        ensures
            final(self).index == old(self).index + 1,
            final(self).update_mode == old(self).update_mode,
            final(self).parent_status == old(self).parent_status,
            final(self).parent == old(self).parent,
            final(self).next_sibling == old(self).next_sibling,
            text_rendered(
                final(self).nodes.0@,
                old(self).nodes.0@,
                old(self).index as int,
                text@,
                old(self).doc@.next_node,
            ),
            final(self).doc.created(
                *old(self).doc,
                one_if(old(self).index == old(self).nodes.0@.len()),
                update_text_ops(
                    old(self).nodes.0@,
                    old(self).index as int,
                    text@,
                    old(self).parent,
                    old(self).next_sibling,
                    old(self).doc@.next_node,
                ),
            ),
            *final(final(self).nodes) == *final(old(self).nodes),
            *final(final(self).doc) == *final(old(self).doc),
    {
        self.nodes.update_text(self.index, text, self.parent, self.next_sibling, self.doc);
        self.index += 1;
    }

    /// Renders a text that never changes into the next slot: it is written
    /// when the slot is new, and never again.
    pub fn static_text(&mut self, text: &str)
        requires
            old(self).index < old(self).nodes.0@.len() ==> old(self).nodes.0@[old(
                self,
            ).index as int] is Text,
            old(self).index == old(self).nodes.0@.len() ==> old(self).doc.has_room(1),
            old(self).index < usize::MAX,
        ensures
            final(self).index == old(self).index + 1,
            final(self).update_mode == old(self).update_mode,
            final(self).parent_status == old(self).parent_status,
            final(self).parent == old(self).parent,
            final(self).next_sibling == old(self).next_sibling,
            old(self).index == old(self).nodes.0@.len() ==> {
                &&& one_more(final(self).nodes.0@, old(self).nodes.0@)
                &&& is_new_text(final(self).nodes.0@.last(), old(self).doc@.next_node, text@)
                &&& final(self).doc.created(
                    *old(self).doc,
                    1,
                    new_text_ops(
                        old(self).doc@.next_node,
                        text@,
                        old(self).parent,
                        old(self).next_sibling,
                    ),
                )
            },
            old(self).index != old(self).nodes.0@.len() ==> {
                &&& *final(self).nodes == *old(self).nodes
                &&& *final(self).doc == *old(self).doc
            },
            *final(final(self).nodes) == *final(old(self).nodes),
            *final(final(self).doc) == *final(old(self).doc),
    {
        self.nodes.static_text(self.index, text, self.parent, self.next_sibling, self.doc);
        self.index += 1;
    }

    /// The walk over the element in the next slot. In a slot that is new
    /// the element is made for `tag`; in another it is there already, with
    /// the status of its parent. The slot is not passed over.
    pub fn get_element_render(&mut self, ns: Option<&str>, tag: &str) -> (render: ElementRender<
        '_,
        L,
        H,
    >)
        requires
            old(self).index <= old(self).nodes.0@.len(),
            old(self).index < old(self).nodes.0@.len() ==> old(self).nodes.0@[old(
                self,
            ).index as int] is Element,
            old(self).index == old(self).nodes.0@.len() ==> old(self).doc.has_room(1),
        ensures
            render.index == 0,
            render.update_mode,
            render.select_value is None,
            old(self).index == old(self).nodes.0@.len() ==> {
                &&& render.status == ElementStatus::JustCreated
                &&& is_new_element(
                    Node::<L, H>::Element(*render.element),
                    old(self).doc@.next_node,
                    tag@,
                )
                &&& render.doc.created(
                    *old(self).doc,
                    1,
                    new_element_ops(
                        old(self).doc@.next_node,
                        str_view(ns),
                        tag@,
                        old(self).parent,
                        old(self).next_sibling,
                    ),
                )
                &&& final(self).nodes.0@ == old(self).nodes.0@.push(
                    Node::Element(*final(render.element)),
                )
            },
            old(self).index < old(self).nodes.0@.len() ==> {
                &&& render.status == old(self).parent_status
                &&& *render.element == old(self).nodes.0@[old(self).index as int]->Element_0
                &&& *render.doc == *old(self).doc
                &&& final(self).nodes.0@ == old(self).nodes.0@.update(
                    old(self).index as int,
                    Node::Element(*final(render.element)),
                )
            },
            *final(self).doc == *final(render.doc),
            final(self).index == old(self).index,
            final(self).update_mode == old(self).update_mode,
            final(self).parent_status == old(self).parent_status,
            final(self).parent == old(self).parent,
            final(self).next_sibling == old(self).next_sibling,
            *final(final(self).nodes) == *final(old(self).nodes),
            *final(final(self).doc) == *final(old(self).doc),
    {
        let status = self.nodes.check_or_create_element(
            ns,
            tag,
            self.index,
            self.parent_status,
            self.parent,
            self.next_sibling,
            self.doc,
        );
        let ghost mid = self.nodes.0@;
        let element = self.nodes.get_element_mut(self.index);
        proof {
            if old(self).index == old(self).nodes.0@.len() {
                assert(mid.update(old(self).index as int, Node::Element(*final(element)))
                    =~= old(self).nodes.0@.push(Node::Element(*final(element))));
            }
        }
        ElementRender::new(element, self.doc, status)
    }

    /// The conditional in the next slot, which is passed over. In a slot
    /// that is new its fragment is made.
    pub fn get_match_if_render(&mut self) -> (render: MatchIfRender<'_, L, H>)
        requires
            old(self).index <= old(self).nodes.0@.len(),
            old(self).index < old(self).nodes.0@.len() ==> old(self).nodes.0@[old(
                self,
            ).index as int] is GroupedNodes,
            old(self).index == old(self).nodes.0@.len() ==> old(self).doc.has_room(1),
            old(self).index < usize::MAX,
        ensures
            render.parent == old(self).parent,
            old(self).index == old(self).nodes.0@.len() ==> {
                &&& is_new_group(
                    Node::<L, H>::GroupedNodes(*render.match_if),
                    old(self).doc@.next_node,
                )
                &&& render.doc.created(
                    *old(self).doc,
                    1,
                    new_group_ops(
                        old(self).doc@.next_node,
                        old(self).parent,
                        old(self).next_sibling,
                    ),
                )
                &&& final(self).nodes.0@ == old(self).nodes.0@.push(
                    Node::GroupedNodes(*final(render.match_if)),
                )
            },
            old(self).index < old(self).nodes.0@.len() ==> {
                &&& *render.match_if == old(self).nodes.0@[old(
                    self,
                ).index as int]->GroupedNodes_0
                &&& *render.doc == *old(self).doc
                &&& final(self).nodes.0@ == old(self).nodes.0@.update(
                    old(self).index as int,
                    Node::GroupedNodes(*final(render.match_if)),
                )
            },
            *final(self).doc == *final(render.doc),
            final(self).index == old(self).index + 1,
            final(self).update_mode == old(self).update_mode,
            final(self).parent_status == old(self).parent_status,
            final(self).parent == old(self).parent,
            final(self).next_sibling == old(self).next_sibling,
            *final(final(self).nodes) == *final(old(self).nodes),
            *final(final(self).doc) == *final(old(self).doc),
    {
        let match_if = self.nodes.grouped_nodes(
            self.index,
            self.parent,
            self.next_sibling,
            self.doc,
        );
        self.index += 1;
        MatchIfRender { parent: self.parent, match_if, doc: self.doc }
    }

    /// The list in the next slot, which is passed over: a fragment whose
    /// nested nodes are the items, found again by position. In a slot that
    /// is new the fragment is made.
    pub fn get_list_render<'b>(
        &'b mut self,
        ns: Option<&'b str>,
        tag: &'b str,
        use_template: bool,
    ) -> (render: ListRender<'b, L, H>)
        requires
            old(self).index <= old(self).nodes.0@.len(),
            old(self).index < old(self).nodes.0@.len() ==> old(self).nodes.0@[old(
                self,
            ).index as int] is GroupedNodes,
            old(self).index == old(self).nodes.0@.len() ==> old(self).doc.has_room(1),
            old(self).index < usize::MAX,
        ensures
            render.index == 0,
            render.ns == ns,
            render.tag == tag,
            render.parent == old(self).parent,
            render.use_template == use_template,
            render.select_value is None,
            old(self).index == old(self).nodes.0@.len() ==> {
                &&& render.next_sibling == Some(old(self).doc@.next_node as u64)
                &&& render.list.0@.len() == 0
                &&& render.doc.created(
                    *old(self).doc,
                    1,
                    new_group_ops(
                        old(self).doc@.next_node,
                        old(self).parent,
                        old(self).next_sibling,
                    ),
                )
                &&& final(self).nodes.0@ == old(self).nodes.0@.push(
                    Node::GroupedNodes(
                        GroupedNodes {
                            active_index: None,
                            end_flag_node: old(self).doc@.next_node as u64,
                            nodes: *final(render.list),
                        },
                    ),
                )
            },
            old(self).index < old(self).nodes.0@.len() ==> {
                &&& render.next_sibling == Some(
                    old(self).nodes.0@[old(self).index as int]->GroupedNodes_0.end_flag_node,
                )
                &&& *render.list == old(self).nodes.0@[old(
                    self,
                ).index as int]->GroupedNodes_0.nodes
                &&& *render.doc == *old(self).doc
                &&& final(self).nodes.0@ == old(self).nodes.0@.update(
                    old(self).index as int,
                    Node::GroupedNodes(
                        GroupedNodes {
                            nodes: *final(render.list),
                            ..old(self).nodes.0@[old(self).index as int]->GroupedNodes_0
                        },
                    ),
                )
            },
            *final(self).doc == *final(render.doc),
            final(self).index == old(self).index + 1,
            final(self).update_mode == old(self).update_mode,
            final(self).parent_status == old(self).parent_status,
            final(self).parent == old(self).parent,
            final(self).next_sibling == old(self).next_sibling,
            *final(final(self).nodes) == *final(old(self).nodes),
            *final(final(self).doc) == *final(old(self).doc),
    {
        let gn = self.nodes.grouped_nodes(self.index, self.parent, self.next_sibling, self.doc);
        self.index += 1;
        let (list, next_sibling) = gn.nodes_mut_and_end_flag_node();
        ListRender {
            index: 0,
            ns,
            tag,
            parent: self.parent,
            next_sibling: Some(next_sibling),
            use_template,
            select_value: None,
            list,
            doc: self.doc,
        }
    }
}

impl<'a, L, H> MatchIfRender<'a, L, H> {
    /// The walk over the children of the arm `index`. Where another arm
    /// was rendered before, its nodes are taken away and the arm is
    /// rendered from nothing.
    pub fn render_on_arm_index(self, index: u32) -> (render: NodesRender<'a, L, H>)
        ensures
            render.update_mode,
            render.index == 0,
            render.parent == self.parent,
            render.next_sibling == Some(old(self.match_if).end_flag_node),
            old(self.match_if).active_index == Some(index) ==> {
                &&& render.parent_status == ElementStatus::Existing
                &&& *render.nodes == old(self.match_if).nodes
                &&& *render.doc == *old(self.doc)
            },
            old(self.match_if).active_index != Some(index) ==> {
                &&& render.parent_status == ElementStatus::JustCreated
                &&& render.nodes.0@.len() == 0
                &&& render.doc.recorded(
                    *old(self.doc),
                    nodes_clear_ops(
                        old(self.match_if).nodes.0@,
                        old(self.match_if).nodes.0@.len(),
                        self.parent,
                    ),
                )
            },
            final(self.match_if).nodes == *final(render.nodes),
            final(self.match_if).active_index == Some(index),
            final(self.match_if).end_flag_node == old(self.match_if).end_flag_node,
            *final(self.doc) == *final(render.doc),
    {
        let status = self.match_if.set_active_index(index, self.parent, self.doc);
        let (nodes, next_sibling) = self.match_if.nodes_mut_and_end_flag_node();
        NodesRender {
            update_mode: true,
            index: 0,
            parent_status: status,
            parent: self.parent,
            next_sibling: Some(next_sibling),
            nodes,
            doc: self.doc,
        }
    }
}

} // verus!
