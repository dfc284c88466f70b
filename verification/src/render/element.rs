//! The cursor over one element: its attributes and listeners by position,
//! then its children.

use crate::component::CompInstance;
use crate::component::MountStatus;
use crate::component::mounted;
use crate::component::root_status;
use crate::dom::attributes::AttributeView;
use crate::dom::attributes::kind_mismatch;
use crate::dom::attributes::needs_write;
use crate::dom::attributes::written;
use crate::dom::document::Document;
use crate::dom::document::DomOp;
use crate::dom::document::DomOpView;
use crate::dom::document::Value;
use crate::dom::document::ValueView;
use crate::dom::element::Element;
use crate::dom::element::ElementStatus;
use crate::dom::element::ElementType;
use crate::dom::element::str_view;
use crate::dom::keyed_list::KeyedList;
use crate::dom::nodes::AnyComponentHandle;
use crate::dom::nodes::Node;
use crate::dom::nodes::is_new_element;
use crate::dom::nodes::nodes_append_ops;
use crate::render::list::KeyedListRender;
use crate::render::list::ListRender;
use crate::render::nodes::NodesRender;
use vstd::prelude::*;

verus! {

/// Walks the attributes and listeners of one element.
///
/// In update mode a value is compared with the one that the pass before
/// wrote at the same position, and takes that position. In static mode a
/// value is written when the element has just been made, and takes no
/// position. A listener takes a position in either mode.
pub struct ElementRender<'a, L, H> {
    pub status: ElementStatus,
    /// The position that the next attribute or listener takes.
    pub index: usize,
    pub update_mode: bool,
    /// The value that a selection element is to get once its options are
    /// rendered.
    pub select_value: Option<String>,
    pub element: &'a mut Element<L, H>,
    pub doc: &'a mut Document,
}

/// What the walk over the attributes of an element has come to.
pub struct ElementRenderView<L> {
    pub status: ElementStatus,
    pub index: int,
    pub update_mode: bool,
    pub select_value: Option<Seq<char>>,
    pub node: u64,
    pub element_type: ElementType,
    pub attributes: Seq<AttributeView<L>>,
}

impl<L> ElementRenderView<L> {
    /// Whether a value can be rendered next: in update mode the position
    /// holds no record of another kind.
    pub open spec fn takes(self, value: AttributeView<L>) -> bool {
        self.update_mode ==> !kind_mismatch(self.attributes, self.index, value) && self.index
            < usize::MAX
    }

    /// Whether rendering the value next writes the display.
    pub open spec fn writes(self, value: AttributeView<L>) -> bool {
        if self.update_mode {
            needs_write(self.attributes, self.index, value)
        } else {
            self.status == ElementStatus::JustCreated
        }
    }

    /// The walk after the value is rendered.
    pub open spec fn after_value(self, value: AttributeView<L>) -> ElementRenderView<L> {
        if self.update_mode {
            ElementRenderView {
                index: self.index + 1,
                attributes: written(self.attributes, self.index, value),
                ..self
            }
        } else {
            self
        }
    }

    /// Whether a float can be rendered next: in update mode the position
    /// holds no record of another kind.
    pub open spec fn takes_f64(self) -> bool {
        self.takes(AttributeView::F64(0))
    }

    /// Whether rendering a float next writes the display, where `close`
    /// tells that the float was found nearer than the machine epsilon to the
    /// one recorded at the position.
    pub open spec fn writes_f64(self, close: bool) -> bool {
        if self.update_mode {
            self.index >= self.attributes.len() || !close
        } else {
            self.status == ElementStatus::JustCreated
        }
    }

    /// The walk after a float of the given bits is rendered.
    pub open spec fn after_f64(self, bits: u64, close: bool) -> ElementRenderView<L> {
        if self.update_mode {
            ElementRenderView {
                index: self.index + 1,
                attributes: if self.writes_f64(close) {
                    written(self.attributes, self.index, AttributeView::F64(bits))
                } else {
                    self.attributes
                },
                ..self
            }
        } else {
            self
        }
    }

    /// The walk after a value for a selection element is put off until its
    /// options are rendered.
    pub open spec fn after_select(self, value: Seq<char>) -> ElementRenderView<L> {
        ElementRenderView { select_value: Some(value), ..self }
    }

    /// Whether a listener that is rendered next has to be bound: on an
    /// element that was just made or just copied.
    pub open spec fn binds(self) -> bool {
        self.status != ElementStatus::Existing
    }

    /// The walk after a listener was found bound already.
    pub open spec fn after_bound(self) -> ElementRenderView<L> {
        ElementRenderView { index: self.index + 1, ..self }
    }

    /// The walk after a listener was bound.
    pub open spec fn after_listener(self, listener: L) -> ElementRenderView<L> {
        ElementRenderView {
            index: self.index + 1,
            attributes: written(
                self.attributes,
                self.index,
                AttributeView::EventListener(Some(listener)),
            ),
            ..self
        }
    }
}

impl<'a, L, H> View for ElementRender<'a, L, H> {
    type V = ElementRenderView<L>;

    open spec fn view(&self) -> ElementRenderView<L> {
        ElementRenderView {
            status: self.status,
            index: self.index as int,
            update_mode: self.update_mode,
            select_value: string_view(self.select_value),
            node: self.element.ws_element,
            element_type: self.element.element_type,
            attributes: self.element.attributes@,
        }
    }
}

/// The view of an optional string.
pub open spec fn string_view(text: Option<String>) -> Option<Seq<char>> {
    match text {
        Some(s) => Some(s@),
        None => None,
    }
}

/// The operations of one that is recorded when `write` holds.
pub open spec fn op_if(write: bool, op: DomOpView) -> Seq<DomOpView> {
    if write {
        seq![op]
    } else {
        Seq::empty()
    }
}

/// Whether a child component has to be attached to the element that a
/// render pass visits with `status`: under an element that was just made,
/// and whenever the child is not attached.
pub open spec fn mounts(status: ElementStatus, child: MountStatus) -> bool {
    status == ElementStatus::JustCreated || child != MountStatus::Mounted
}

/// On an element that was just copied every listener is bound, whatever
/// the cache holds, and so is it on one that was just made. On an element
/// that is there since an earlier pass none is.
pub proof fn lemma_copy_binds_every_listener<L>(walk: ElementRenderView<L>)
    ensures
        walk.status == ElementStatus::JustCloned ==> walk.binds(),
        walk.status == ElementStatus::JustCreated ==> walk.binds(),
        walk.status == ElementStatus::Existing ==> !walk.binds(),
{
}

/// Rendering a value again at its position, with nothing changed, writes
/// nothing and leaves the cache as it is.
pub proof fn lemma_value_again_writes_nothing<L>(
    walk: ElementRenderView<L>,
    value: AttributeView<L>,
)
    requires
        walk.update_mode,
        walk.index >= 0,
        walk.takes(value),
        walk.index <= walk.attributes.len(),
    ensures
        !(ElementRenderView { index: walk.index, ..walk.after_value(value) }).writes(value),
        (ElementRenderView { index: walk.index, ..walk.after_value(value) }).after_value(value)
            == walk.after_value(value),
{
    let again = ElementRenderView { index: walk.index, ..walk.after_value(value) };
    assert(again.after_value(value).attributes =~= walk.after_value(value).attributes);
}

impl<'a, L, H> ElementRender<'a, L, H> {
    /// A walk over `element`, from its first position, in update mode.
    pub fn new(
        element: &'a mut Element<L, H>,
        doc: &'a mut Document,
        status: ElementStatus,
    ) -> (render: Self)
        ensures
            render.status == status,
            render.index == 0,
            render.update_mode,
            render.select_value is None,
            *render.element == *old(element),
            *render.doc == *old(doc),
            *final(element) == *final(render.element),
            *final(doc) == *final(render.doc),
    {
        ElementRender { status, index: 0, update_mode: true, select_value: None, element, doc }
    }

    /// How the element came to its position.
    pub fn status(&self) -> (status: ElementStatus)
        ensures
            status == self.status,
    {
        self.status
    }

    /// Whether the listener that the render function declares next has to
    /// be bound. On an element that is there since an earlier pass it is
    /// bound already, and its position is passed over.
    pub fn require_set_listener(&mut self) -> (bind: bool)
        requires
            old(self).status == ElementStatus::Existing ==> old(self).index < usize::MAX,
        ensures
            bind == old(self)@.binds(),
            final(self)@ == if bind {
                old(self)@
            } else {
                old(self)@.after_bound()
            },
            final(self).element.nodes == old(self).element.nodes,
            *final(self).doc == *old(self).doc,
            *final(final(self).element) == *final(old(self).element),
            *final(final(self).doc) == *final(old(self).doc),
    {
        match self.status {
            ElementStatus::Existing => {
                self.index += 1;
                false
            },
            _ => true,
        }
    }

    /// Keeps the listener that was just bound, at the next position.
    pub fn store_listener(&mut self, listener: L)
        requires
            old(self).index < usize::MAX,
        ensures
            final(self)@ == old(self)@.after_listener(listener),
            final(self).element.nodes == old(self).element.nodes,
            *final(self).doc == *old(self).doc,
            *final(final(self).element) == *final(old(self).element),
            *final(final(self).doc) == *final(old(self).doc),
    {
        self.element.attributes.store_listener(self.index, listener);
        self.index += 1;
    }

    /// Whether the display has to be written for the boolean that the
    /// render function declares next.
    pub fn check_bool_attribute(&mut self, value: bool) -> (write: bool)
        requires
            old(self)@.takes(AttributeView::Bool(value)),
        ensures
            write == old(self)@.writes(AttributeView::Bool(value)),
            final(self)@ == old(self)@.after_value(AttributeView::Bool(value)),
            final(self).element.nodes == old(self).element.nodes,
            *final(self).doc == *old(self).doc,
            *final(final(self).element) == *final(old(self).element),
            *final(final(self).doc) == *final(old(self).doc),
    {
        if self.update_mode {
            let write = self.element.attributes.check_bool_attribute(self.index, value);
            self.index += 1;
            write
        } else {
            matches!(self.status, ElementStatus::JustCreated)
        }
    }

    /// Whether the display has to be written for the string that the render
    /// function declares next.
    pub fn check_str_attribute(&mut self, value: &str) -> (write: bool)
        requires
            old(self)@.takes(AttributeView::String(value@)),
        ensures
            write == old(self)@.writes(AttributeView::String(value@)),
            final(self)@ == old(self)@.after_value(AttributeView::String(value@)),
            final(self).element.nodes == old(self).element.nodes,
            *final(self).doc == *old(self).doc,
            *final(final(self).element) == *final(old(self).element),
            *final(final(self).doc) == *final(old(self).doc),
    {
        if self.update_mode {
            let write = self.element.attributes.check_str_attribute(self.index, value);
            self.index += 1;
            write
        } else {
            matches!(self.status, ElementStatus::JustCreated)
        }
    }

    /// Whether the display has to be written for the signed number that the
    /// render function declares next.
    pub fn check_i32_attribute(&mut self, value: i32) -> (write: bool)
        requires
            old(self)@.takes(AttributeView::I32(value)),
        ensures
            write == old(self)@.writes(AttributeView::I32(value)),
            final(self)@ == old(self)@.after_value(AttributeView::I32(value)),
            final(self).element.nodes == old(self).element.nodes,
            *final(self).doc == *old(self).doc,
            *final(final(self).element) == *final(old(self).element),
            *final(final(self).doc) == *final(old(self).doc),
    {
        if self.update_mode {
            let write = self.element.attributes.check_i32_attribute(self.index, value);
            self.index += 1;
            write
        } else {
            matches!(self.status, ElementStatus::JustCreated)
        }
    }

    /// Whether the display has to be written for the unsigned number that
    /// the render function declares next.
    pub fn check_u32_attribute(&mut self, value: u32) -> (write: bool)
        requires
            old(self)@.takes(AttributeView::U32(value)),
        ensures
            write == old(self)@.writes(AttributeView::U32(value)),
            final(self)@ == old(self)@.after_value(AttributeView::U32(value)),
            final(self).element.nodes == old(self).element.nodes,
            *final(self).doc == *old(self).doc,
            *final(final(self).element) == *final(old(self).element),
            *final(final(self).doc) == *final(old(self).doc),
    {
        if self.update_mode {
            let write = self.element.attributes.check_u32_attribute(self.index, value);
            self.index += 1;
            write
        } else {
            matches!(self.status, ElementStatus::JustCreated)
        }
    }

    /// The bits of the float recorded at the next position, for the caller
    /// to compare a new float with; none in static mode and at a position
    /// that is new.
    pub fn f64_attribute(&self) -> (bits: Option<u64>)
        requires
            self@.takes_f64(),
        ensures
            bits == if self@.update_mode && self@.index < self@.attributes.len() {
                Some(self@.attributes[self@.index]->F64_0)
            } else {
                None
            },
    {
        if self.update_mode {
            self.element.attributes.f64_attribute(self.index)
        } else {
            None
        }
    }

    /// Whether the display has to be written for the float that the render
    /// function declares next. The caller has compared the float with the
    /// one recorded at the position, and `close` says that it found them
    /// nearer than the machine epsilon.
    pub fn check_f64_attribute(&mut self, bits: u64, close: bool) -> (write: bool)
        requires
            old(self)@.takes_f64(),
        ensures
            write == old(self)@.writes_f64(close),
            final(self)@ == old(self)@.after_f64(bits, close),
            final(self).element.nodes == old(self).element.nodes,
            *final(self).doc == *old(self).doc,
            *final(final(self).element) == *final(old(self).element),
            *final(final(self).doc) == *final(old(self).doc),
    {
        if self.update_mode {
            let write = self.element.attributes.check_f64_attribute(self.index, bits, close);
            self.index += 1;
            write
        } else {
            matches!(self.status, ElementStatus::JustCreated)
        }
    }

    /// Renders a boolean attribute: where the display has to be written,
    /// the attribute is set, with an empty value, for `true` and taken away
    /// for `false`.
    pub fn set_bool_attribute(&mut self, name: &str, value: bool)
        requires
            old(self)@.takes(AttributeView::Bool(value)),
        ensures
            final(self)@ == old(self)@.after_value(AttributeView::Bool(value)),
            final(self).element.nodes == old(self).element.nodes,
            final(self).doc.recorded(
                *old(self).doc,
                op_if(
                    old(self)@.writes(AttributeView::Bool(value)),
                    if value {
                        DomOpView::SetAttribute {
                            node: old(self)@.node,
                            name: name@,
                            value: ValueView::Str(Seq::empty()),
                        }
                    } else {
                        DomOpView::RemoveAttribute { node: old(self)@.node, name: name@ }
                    },
                ),
            ),
            *final(final(self).element) == *final(old(self).element),
            *final(final(self).doc) == *final(old(self).doc),
    {
        if self.check_bool_attribute(value) {
            if value {
                self.doc.record(
                    DomOp::SetAttribute {
                        node: self.element.ws_element,
                        name: name.to_owned(),
                        value: Value::Str(String::new()),
                    },
                );
            } else {
                self.doc.record(
                    DomOp::RemoveAttribute { node: self.element.ws_element, name: name.to_owned() },
                );
            }
        } else {
            assert(self.doc@.ops + Seq::<DomOpView>::empty() =~= self.doc@.ops);
        }
    }

    /// Renders a string attribute.
    pub fn set_str_attribute(&mut self, name: &str, value: &str)
        requires
            old(self)@.takes(AttributeView::String(value@)),
        ensures
            final(self)@ == old(self)@.after_value(AttributeView::String(value@)),
            final(self).element.nodes == old(self).element.nodes,
            final(self).doc.recorded(
                *old(self).doc,
                op_if(
                    old(self)@.writes(AttributeView::String(value@)),
                    DomOpView::SetAttribute {
                        node: old(self)@.node,
                        name: name@,
                        value: ValueView::Str(value@),
                    },
                ),
            ),
            *final(final(self).element) == *final(old(self).element),
            *final(final(self).doc) == *final(old(self).doc),
    {
        if self.check_str_attribute(value) {
            self.doc.record(
                DomOp::SetAttribute {
                    node: self.element.ws_element,
                    name: name.to_owned(),
                    value: Value::Str(value.to_owned()),
                },
            );
        } else {
            assert(self.doc@.ops + Seq::<DomOpView>::empty() =~= self.doc@.ops);
        }
    }

    /// Renders an attribute that holds a signed number.
    pub fn set_i32_attribute(&mut self, name: &str, value: i32)
        requires
            old(self)@.takes(AttributeView::I32(value)),
        ensures
            final(self)@ == old(self)@.after_value(AttributeView::I32(value)),
            final(self).element.nodes == old(self).element.nodes,
            final(self).doc.recorded(
                *old(self).doc,
                op_if(
                    old(self)@.writes(AttributeView::I32(value)),
                    DomOpView::SetAttribute {
                        node: old(self)@.node,
                        name: name@,
                        value: ValueView::I32(value),
                    },
                ),
            ),
            *final(final(self).element) == *final(old(self).element),
            *final(final(self).doc) == *final(old(self).doc),
    {
        if self.check_i32_attribute(value) {
            self.doc.record(
                DomOp::SetAttribute {
                    node: self.element.ws_element,
                    name: name.to_owned(),
                    value: Value::I32(value),
                },
            );
        } else {
            assert(self.doc@.ops + Seq::<DomOpView>::empty() =~= self.doc@.ops);
        }
    }

    /// Renders an attribute that holds an unsigned number.
    pub fn set_u32_attribute(&mut self, name: &str, value: u32)
        requires
            old(self)@.takes(AttributeView::U32(value)),
        ensures
            final(self)@ == old(self)@.after_value(AttributeView::U32(value)),
            final(self).element.nodes == old(self).element.nodes,
            final(self).doc.recorded(
                *old(self).doc,
                op_if(
                    old(self)@.writes(AttributeView::U32(value)),
                    DomOpView::SetAttribute {
                        node: old(self)@.node,
                        name: name@,
                        value: ValueView::U32(value),
                    },
                ),
            ),
            *final(final(self).element) == *final(old(self).element),
            *final(final(self).doc) == *final(old(self).doc),
    {
        if self.check_u32_attribute(value) {
            self.doc.record(
                DomOp::SetAttribute {
                    node: self.element.ws_element,
                    name: name.to_owned(),
                    value: Value::U32(value),
                },
            );
        } else {
            assert(self.doc@.ops + Seq::<DomOpView>::empty() =~= self.doc@.ops);
        }
    }

    /// Renders an attribute that holds a float, given by its bits. The
    /// caller has compared the float with the one recorded at the position,
    /// and `close` says that it found them nearer than the machine epsilon.
    pub fn set_f64_attribute(&mut self, name: &str, bits: u64, close: bool)
        requires
            old(self)@.takes_f64(),
        ensures
            final(self)@ == old(self)@.after_f64(bits, close),
            final(self).element.nodes == old(self).element.nodes,
            final(self).doc.recorded(
                *old(self).doc,
                op_if(
                    old(self)@.writes_f64(close),
                    DomOpView::SetAttribute {
                        node: old(self)@.node,
                        name: name@,
                        value: ValueView::F64(bits),
                    },
                ),
            ),
            *final(final(self).element) == *final(old(self).element),
            *final(final(self).doc) == *final(old(self).doc),
    {
        if self.check_f64_attribute(bits, close) {
            self.doc.record(
                DomOp::SetAttribute {
                    node: self.element.ws_element,
                    name: name.to_owned(),
                    value: Value::F64(bits),
                },
            );
        } else {
            assert(self.doc@.ops + Seq::<DomOpView>::empty() =~= self.doc@.ops);
        }
    }

    /// Renders the checked state of an input. On an element of another kind
    /// the state takes its position and nothing is written.
    pub fn checked(&mut self, value: bool)
        requires
            old(self)@.takes(AttributeView::Bool(value)),
        ensures
            final(self)@ == old(self)@.after_value(AttributeView::Bool(value)),
            final(self).element.nodes == old(self).element.nodes,
            final(self).doc.recorded(
                *old(self).doc,
                op_if(
                    old(self)@.writes(AttributeView::Bool(value)) && old(self)@.element_type
                        == ElementType::Input,
                    DomOpView::SetChecked { node: old(self)@.node, checked: value },
                ),
            ),
            *final(final(self).element) == *final(old(self).element),
            *final(final(self).doc) == *final(old(self).doc),
    {
        proof {
            assert(self.doc@.ops + Seq::<DomOpView>::empty() =~= self.doc@.ops);
        }
        if self.check_bool_attribute(value) {
            match self.element.element_type {
                ElementType::Input => {
                    self.doc.record(
                        DomOp::SetChecked { node: self.element.ws_element, checked: value },
                    );
                },
                _ => {},
            }
        }
    }

    /// Renders whether the element has a class: where the display has to be
    /// written, the class is added for `true` and taken away for `false`.
    pub fn class_if(&mut self, class_name: &str, class_on: bool)
        requires
            old(self)@.takes(AttributeView::Bool(class_on)),
        ensures
            final(self)@ == old(self)@.after_value(AttributeView::Bool(class_on)),
            final(self).element.nodes == old(self).element.nodes,
            final(self).doc.recorded(
                *old(self).doc,
                op_if(
                    old(self)@.writes(AttributeView::Bool(class_on)),
                    if class_on {
                        DomOpView::AddClass { node: old(self)@.node, name: class_name@ }
                    } else {
                        DomOpView::RemoveClass { node: old(self)@.node, name: class_name@ }
                    },
                ),
            ),
            *final(final(self).element) == *final(old(self).element),
            *final(final(self).doc) == *final(old(self).doc),
    {
        if self.check_bool_attribute(class_on) {
            if class_on {
                self.doc.record(
                    DomOp::AddClass { node: self.element.ws_element, name: class_name.to_owned() },
                );
            } else {
                self.doc.record(
                    DomOp::RemoveClass {
                        node: self.element.ws_element,
                        name: class_name.to_owned(),
                    },
                );
            }
        } else {
            assert(self.doc@.ops + Seq::<DomOpView>::empty() =~= self.doc@.ops);
        }
    }

    /// Gives the element the focus if `value` holds. Nothing is remembered.
    pub fn focus(&mut self, value: bool)
        ensures
            final(self)@ == old(self)@,
            final(self).element.nodes == old(self).element.nodes,
            final(self).doc.recorded(
                *old(self).doc,
                op_if(value, DomOpView::Focus { node: old(self)@.node }),
            ),
            *final(final(self).element) == *final(old(self).element),
            *final(final(self).doc) == *final(old(self).doc),
    {
        if value {
            self.doc.record(DomOp::Focus { node: self.element.ws_element });
        } else {
            assert(self.doc@.ops + Seq::<DomOpView>::empty() =~= self.doc@.ops);
        }
    }

    /// Names the element. Nothing is remembered: the display is written in
    /// every pass.
    pub fn id(&mut self, id: &str)
        ensures
            final(self)@ == old(self)@,
            final(self).element.nodes == old(self).element.nodes,
            final(self).doc.recorded(
                *old(self).doc,
                seq![DomOpView::SetId { node: old(self)@.node, id: id@ }],
            ),
            *final(final(self).element) == *final(old(self).element),
            *final(final(self).doc) == *final(old(self).doc),
    {
        self.doc.record(DomOp::SetId { node: self.element.ws_element, id: id.to_owned() });
    }

    /// Renders the address that a link leads to.
    pub fn href(&mut self, url: &str)
        requires
            old(self)@.takes(AttributeView::String(url@)),
        ensures
            final(self)@ == old(self)@.after_value(AttributeView::String(url@)),
            final(self).element.nodes == old(self).element.nodes,
            final(self).doc.recorded(
                *old(self).doc,
                op_if(
                    old(self)@.writes(AttributeView::String(url@)),
                    DomOpView::SetAttribute {
                        node: old(self)@.node,
                        name: "href"@,
                        value: ValueView::Str(url@),
                    },
                ),
            ),
            *final(final(self).element) == *final(old(self).element),
            *final(final(self).doc) == *final(old(self).doc),
    {
        self.set_str_attribute("href", url);
    }

    /// Puts the value of a selection element off until its options are
    /// rendered.
    pub fn start_hacking_for_select_value(&mut self, value: &str)
        ensures
            final(self)@ == old(self)@.after_select(value@),
            final(self).element.nodes == old(self).element.nodes,
            *final(self).doc == *old(self).doc,
            *final(final(self).element) == *final(old(self).element),
            *final(final(self).doc) == *final(old(self).doc),
    {
        self.select_value = Some(value.to_owned());
    }

    /// Renders the value of a form control. Where the display has to be
    /// written: an input or a text area gets the value at once; a selection
    /// element gets it once its options are rendered; on an element of
    /// another kind nothing is written.
    pub fn value(&mut self, value: &str)
        requires
            old(self)@.takes(AttributeView::String(value@)),
        ensures
            final(self)@ == if old(self)@.writes(AttributeView::String(value@)) && old(
                self,
            )@.element_type == ElementType::Select {
                old(self)@.after_value(AttributeView::String(value@)).after_select(value@)
            } else {
                old(self)@.after_value(AttributeView::String(value@))
            },
            final(self).element.nodes == old(self).element.nodes,
            final(self).doc.recorded(
                *old(self).doc,
                op_if(
                    old(self)@.writes(AttributeView::String(value@)) && (old(self)@.element_type
                        == ElementType::Input || old(self)@.element_type
                        == ElementType::TextArea),
                    DomOpView::SetValue { node: old(self)@.node, text: value@ },
                ),
            ),
            *final(final(self).element) == *final(old(self).element),
            *final(final(self).doc) == *final(old(self).doc),
    {
        proof {
            assert(self.doc@.ops + Seq::<DomOpView>::empty() =~= self.doc@.ops);
        }
        if self.check_str_attribute(value) {
            match self.element.element_type {
                ElementType::Input => {
                    self.doc.record(
                        DomOp::SetValue { node: self.element.ws_element, text: value.to_owned() },
                    );
                },
                ElementType::Select => {
                    self.start_hacking_for_select_value(value);
                },
                ElementType::TextArea => {
                    self.doc.record(
                        DomOp::SetValue { node: self.element.ws_element, text: value.to_owned() },
                    );
                },
                ElementType::Other => {},
            }
        }
    }

    /// Ends the walk over the attributes and starts the walk over the
    /// children, which may differ from pass to pass.
    pub fn nodes(self) -> (render: NodesRender<'a, L, H>)
        ensures
            render.update_mode,
            render.index == 0,
            render.parent_status == self.status,
            render.parent == old(self.element).ws_element,
            render.next_sibling is None,
            *render.nodes == old(self.element).nodes,
            *render.doc == *old(self.doc),
            final(self.element).nodes == *final(render.nodes),
            final(self.element).ws_element == old(self.element).ws_element,
            final(self.element).element_type == old(self.element).element_type,
            final(self.element).attributes == old(self.element).attributes,
            *final(self.doc) == *final(render.doc),
    {
        let parent = self.element.ws_element;
        NodesRender {
            update_mode: true,
            index: 0,
            parent_status: self.status,
            parent,
            next_sibling: None,
            nodes: &mut self.element.nodes,
            doc: self.doc,
        }
    }

    /// Ends the walk over the attributes and starts the walk over the
    /// children, which never change after they were made.
    pub fn static_nodes(self) -> (render: NodesRender<'a, L, H>)
        ensures
            !render.update_mode,
            render.index == 0,
            render.parent_status == self.status,
            render.parent == old(self.element).ws_element,
            render.next_sibling is None,
            *render.nodes == old(self.element).nodes,
            *render.doc == *old(self.doc),
            final(self.element).nodes == *final(render.nodes),
            final(self.element).ws_element == old(self.element).ws_element,
            final(self.element).element_type == old(self.element).element_type,
            final(self.element).attributes == old(self.element).attributes,
            *final(self.doc) == *final(render.doc),
    {
        let parent = self.element.ws_element;
        NodesRender {
            update_mode: false,
            index: 0,
            parent_status: self.status,
            parent,
            next_sibling: None,
            nodes: &mut self.element.nodes,
            doc: self.doc,
        }
    }

    /// Ends the walk over the attributes and starts the walk over the
    /// children as the items of a list, found again by position. A value
    /// that was put off for a selection element goes with the list.
    pub fn list(self, ns: Option<&'a str>, tag: &'a str, use_template: bool) -> (render: ListRender<
        'a,
        L,
        H,
    >)
        ensures
            render.index == 0,
            render.ns == ns,
            render.tag == tag,
            render.parent == old(self.element).ws_element,
            render.next_sibling is None,
            render.use_template == use_template,
            render.select_value == self.select_value,
            *render.list == old(self.element).nodes,
            *render.doc == *old(self.doc),
            final(self.element).nodes == *final(render.list),
            final(self.element).ws_element == old(self.element).ws_element,
            final(self.element).element_type == old(self.element).element_type,
            final(self.element).attributes == old(self.element).attributes,
            *final(self.doc) == *final(render.doc),
    {
        let parent = self.element.ws_element;
        ListRender {
            index: 0,
            ns,
            tag,
            parent,
            next_sibling: None,
            use_template,
            select_value: self.select_value,
            list: &mut self.element.nodes,
            doc: self.doc,
        }
    }

    /// Ends the walk over the attributes and starts the walk over the
    /// children as the items of a list, found again by key, whose new items
    /// are copies of a template. A list that has no template gets one, made
    /// for `tag` and not rendered.
    pub fn keyed_list(self, ns: Option<&'a str>, tag: &'a str) -> (render: KeyedListRender<
        'a,
        L,
        H,
    >)
        requires
            old(self.element).nodes.0@.len() > 0 ==> old(self.element).nodes.0@[0] is KeyedList,
            (old(self.element).nodes.0@.len() == 0 || old(
                self.element,
            ).nodes.0@[0]->KeyedList_0.template is None) ==> old(self.doc).has_room(1),
        ensures
            render.ns == ns,
            render.tag == tag,
            render.parent == old(self.element).ws_element,
            render.next_sibling is None,
            render.use_template,
            render.statuses@.len() == 0,
            render.select_value == self.select_value,
            old(self.element).nodes.0@.len() > 0 ==> {
                &&& render.list.active == old(self.element).nodes.0@[0]->KeyedList_0.active
                &&& render.list.buffer == old(self.element).nodes.0@[0]->KeyedList_0.buffer
                &&& old(self.element).nodes.0@[0]->KeyedList_0.template is Some ==> {
                    &&& render.list.template == old(
                        self.element,
                    ).nodes.0@[0]->KeyedList_0.template
                    &&& *render.doc == *old(self.doc)
                }
                &&& final(self.element).nodes.0@ == old(self.element).nodes.0@.update(
                    0,
                    Node::KeyedList(*final(render.list)),
                )
            },
            old(self.element).nodes.0@.len() == 0 ==> {
                &&& render.list.active@.len() == 0
                &&& render.list.buffer@.len() == 0
                &&& final(self.element).nodes.0@ == seq![Node::KeyedList(*final(render.list))]
            },
            (old(self.element).nodes.0@.len() == 0 || old(
                self.element,
            ).nodes.0@[0]->KeyedList_0.template is None) ==> {
                &&& render.list.template matches Some(t)
                &&& !t.rendered
                &&& is_new_element(Node::Element(t.element), old(self.doc)@.next_node, tag@)
                &&& render.doc.created(
                    *old(self.doc),
                    1,
                    seq![
                        DomOpView::CreateElement {
                            node: old(self.doc)@.next_node as u64,
                            namespace: str_view(ns),
                            tag: tag@,
                        },
                    ],
                )
            },
            final(self.element).ws_element == old(self.element).ws_element,
            final(self.element).element_type == old(self.element).element_type,
            final(self.element).attributes == old(self.element).attributes,
            *final(self.doc) == *final(render.doc),
    {
        let parent = self.element.ws_element;
        let list = self.element.nodes.keyed_list();
        list.require_init_template(ns, tag, self.doc);
        KeyedListRender {
            ns,
            tag,
            parent,
            next_sibling: None,
            use_template: true,
            statuses: Vec::new(),
            select_value: self.select_value,
            list,
            doc: self.doc,
        }
    }

    /// Ends the walk over the attributes and starts the walk over the
    /// children as the items of a list, found again by key, whose new items
    /// are made from nothing, whether the list has a template or not.
    pub fn keyed_list_not_use_template(self, ns: Option<&'a str>, tag: &'a str) -> (render:
        KeyedListRender<'a, L, H>)
        requires
            old(self.element).nodes.0@.len() > 0 ==> old(self.element).nodes.0@[0] is KeyedList,
        ensures
            render.ns == ns,
            render.tag == tag,
            render.parent == old(self.element).ws_element,
            render.next_sibling is None,
            !render.use_template,
            render.statuses@.len() == 0,
            render.select_value == self.select_value,
            *render.doc == *old(self.doc),
            old(self.element).nodes.0@.len() > 0 ==> {
                &&& *render.list == old(self.element).nodes.0@[0]->KeyedList_0
                &&& final(self.element).nodes.0@ == old(self.element).nodes.0@.update(
                    0,
                    Node::KeyedList(*final(render.list)),
                )
            },
            old(self.element).nodes.0@.len() == 0 ==> {
                &&& render.list.active@.len() == 0
                &&& render.list.buffer@.len() == 0
                &&& render.list.template is None
                &&& final(self.element).nodes.0@ == seq![Node::KeyedList(*final(render.list))]
            },
            final(self.element).ws_element == old(self.element).ws_element,
            final(self.element).element_type == old(self.element).element_type,
            final(self.element).attributes == old(self.element).attributes,
            *final(self.doc) == *final(render.doc),
    {
        let parent = self.element.ws_element;
        let list = self.element.nodes.keyed_list();
        KeyedListRender {
            ns,
            tag,
            parent,
            next_sibling: None,
            use_template: false,
            statuses: Vec::new(),
            select_value: self.select_value,
            list,
            doc: self.doc,
        }
    }

    /// Ends the walk over the attributes and gives the element to a child
    /// component as its root. Where the child has to be attached, the
    /// element is emptied, the child is attached to it, and the element
    /// keeps `handle` in its first slot; the result is the state of the
    /// child and the walk over its root, which is rendered at once. Where the child is
    /// attached already, nothing is done.
    pub fn component<'b, C>(self, child: &'b mut CompInstance<C, L, H>, handle: H) -> (render:
        Option<(&'b C, ElementRender<'b, L, H>)>) where 'a: 'b
        requires
            old(child).state is Some,
        ensures
            final(child).state == old(child).state,
            final(child).events == old(child).events,
            final(self.element).ws_element == old(self.element).ws_element,
            final(self.element).element_type == old(self.element).element_type,
            final(self.element).attributes == old(self.element).attributes,
            mounts(self.status, old(child).mount_status) ==> {
                &&& render is Some
                &&& *render->Some_0.0 == old(child).state->Some_0
                &&& render->Some_0.1.status == root_status(old(child).root_element)
                &&& render->Some_0.1.index == 0
                &&& render->Some_0.1.update_mode
                &&& render->Some_0.1.select_value is None
                &&& render->Some_0.1.element.ws_element == old(self.element).ws_element
                &&& render->Some_0.1.element.element_type == old(self.element).element_type
                &&& render->Some_0.1.element.attributes == old(child).root_element.attributes
                &&& render->Some_0.1.element.nodes == old(child).root_element.nodes
                &&& render->Some_0.1.doc.recorded(
                    *old(self.doc),
                    seq![
                        DomOpView::SetTextContent {
                            node: old(self.element).ws_element,
                            content: None,
                        },
                    ] + nodes_append_ops(
                        old(child).root_element.nodes.0@,
                        old(child).root_element.nodes.0@.len(),
                        old(self.element).ws_element,
                    ),
                )
                &&& final(child).mount_status == mounted(old(child).mount_status)
                &&& final(child).root_element == *final(render->Some_0.1.element)
                &&& *final(self.doc) == *final(render->Some_0.1.doc)
                &&& final(self.element).nodes.0@ == if old(self.element).nodes.0@.len() > 0 {
                    old(self.element).nodes.0@.update(
                        0,
                        Node::ComponentHandle(AnyComponentHandle(handle)),
                    )
                } else {
                    seq![Node::ComponentHandle(AnyComponentHandle(handle))]
                }
            },
            !mounts(self.status, old(child).mount_status) ==> {
                &&& render is None
                &&& final(child).mount_status == old(child).mount_status
                &&& final(child).root_element == old(child).root_element
                &&& final(self.element).nodes == old(self.element).nodes
                &&& *final(self.doc) == *old(self.doc)
            },
    {
        let created = matches!(self.status, ElementStatus::JustCreated);
        if created || !child.is_mounted() {
            let ghost before = *self.doc;
            let ws_element = self.element.ws_element;
            let element_type = self.element.element_type;
            self.doc.record(DomOp::SetTextContent { node: ws_element, content: None });
            let ghost between = *self.doc;
            self.element.nodes.store_component_handle(AnyComponentHandle(handle));
            let render = child.mount_to(ws_element, element_type, self.doc);
            proof {
                render.1.doc.lemma_recorded_twice(
                    before,
                    between,
                    seq![DomOpView::SetTextContent { node: ws_element, content: None }],
                    nodes_append_ops(
                        old(child).root_element.nodes.0@,
                        old(child).root_element.nodes.0@.len(),
                        ws_element,
                    ),
                );
            }
            Some(render)
        } else {
            None
        }
    }
}

/// The walk over the attributes of an element that never change after the
/// element was made.
pub struct StaticAttributes<'a, L, H>(pub ElementRender<'a, L, H>);

/// The walk over the attributes of an element that may differ from pass to
/// pass.
pub struct Attributes<'a, L, H>(pub ElementRender<'a, L, H>);

impl<'a, L, H> StaticAttributes<'a, L, H> {
    /// The walk over `handle`, in static mode.
    pub fn new(handle: ElementRender<'a, L, H>) -> (render: StaticAttributes<'a, L, H>)
        ensures
            render.0 == (ElementRender { update_mode: false, ..handle }),
    {
        let mut handle = handle;
        handle.update_mode = false;
        StaticAttributes(handle)
    }

    /// Goes on with the attributes that may differ from pass to pass.
    pub fn attributes(self) -> (render: Attributes<'a, L, H>)
        ensures
            render.0 == (ElementRender { update_mode: true, ..self.0 }),
    {
        Attributes::new(self.0)
    }

    /// Ends the walk over the attributes and starts the walk over the
    /// children, which never change after they were made.
    pub fn static_nodes(self) -> (render: NodesRender<'a, L, H>)
        ensures
            call_ensures(ElementRender::<'a, L, H>::static_nodes, (self.0,), render),
    {
        self.0.static_nodes()
    }

    /// Ends the walk over the attributes and starts the walk over the
    /// children, which may differ from pass to pass.
    pub fn nodes(self) -> (render: NodesRender<'a, L, H>)
        ensures
            call_ensures(ElementRender::<'a, L, H>::nodes, (self.0,), render),
    {
        self.0.nodes()
    }

    /// Ends the walk over the attributes and starts the walk over the
    /// children as the items of a list, found again by position, as the
    /// walk over the element does.
    pub fn list(self, ns: Option<&'a str>, tag: &'a str, use_template: bool) -> (render: ListRender<
        'a,
        L,
        H,
    >)
        ensures
            call_ensures(ElementRender::<'a, L, H>::list, (self.0, ns, tag, use_template), render),
    {
        self.0.list(ns, tag, use_template)
    }

    /// Ends the walk over the attributes and starts the walk over the
    /// children as the items of a list, found again by key, whose new items
    /// are copies of a template, as the walk over the element does.
    pub fn keyed_list(self, ns: Option<&'a str>, tag: &'a str) -> (render: KeyedListRender<
        'a,
        L,
        H,
    >)
        requires
            old(self.0.element).nodes.0@.len() > 0 ==> old(
                self.0.element,
            ).nodes.0@[0] is KeyedList,
            (old(self.0.element).nodes.0@.len() == 0 || old(
                self.0.element,
            ).nodes.0@[0]->KeyedList_0.template is None) ==> old(self.0.doc).has_room(1),
        ensures
            call_ensures(ElementRender::<'a, L, H>::keyed_list, (self.0, ns, tag), render),
    {
        self.0.keyed_list(ns, tag)
    }

    /// Ends the walk over the attributes and starts the walk over the
    /// children as the items of a list, found again by key, whose new items
    /// are made from nothing, as the walk over the element does.
    pub fn keyed_list_not_use_template(self, ns: Option<&'a str>, tag: &'a str) -> (render:
        KeyedListRender<'a, L, H>)
        requires
            old(self.0.element).nodes.0@.len() > 0 ==> old(
                self.0.element,
            ).nodes.0@[0] is KeyedList,
        ensures
            call_ensures(
                ElementRender::<'a, L, H>::keyed_list_not_use_template,
                (self.0, ns, tag),
                render,
            ),
    {
        self.0.keyed_list_not_use_template(ns, tag)
    }

    /// Ends the walk over the attributes and gives the element to a child
    /// component as its root, as the walk over the element does.
    pub fn component<'b, C>(self, child: &'b mut CompInstance<C, L, H>, handle: H) -> (render:
        Option<(&'b C, ElementRender<'b, L, H>)>) where 'a: 'b
        requires
            old(child).state is Some,
        ensures
            final(child).state == old(child).state,
            final(child).events == old(child).events,
            final(self.0.element).ws_element == old(self.0.element).ws_element,
            final(self.0.element).element_type == old(self.0.element).element_type,
            final(self.0.element).attributes == old(self.0.element).attributes,
            mounts(self.0.status, old(child).mount_status) ==> {
                &&& render is Some
                &&& *render->Some_0.0 == old(child).state->Some_0
                &&& render->Some_0.1.status == root_status(old(child).root_element)
                &&& render->Some_0.1.index == 0
                &&& render->Some_0.1.update_mode
                &&& render->Some_0.1.select_value is None
                &&& render->Some_0.1.element.ws_element == old(self.0.element).ws_element
                &&& render->Some_0.1.element.element_type == old(self.0.element).element_type
                &&& render->Some_0.1.element.attributes == old(child).root_element.attributes
                &&& render->Some_0.1.element.nodes == old(child).root_element.nodes
                &&& render->Some_0.1.doc.recorded(
                    *old(self.0.doc),
                    seq![
                        DomOpView::SetTextContent {
                            node: old(self.0.element).ws_element,
                            content: None,
                        },
                    ] + nodes_append_ops(
                        old(child).root_element.nodes.0@,
                        old(child).root_element.nodes.0@.len(),
                        old(self.0.element).ws_element,
                    ),
                )
                &&& final(child).mount_status == mounted(old(child).mount_status)
                &&& final(child).root_element == *final(render->Some_0.1.element)
                &&& *final(self.0.doc) == *final(render->Some_0.1.doc)
                &&& final(self.0.element).nodes.0@ == if old(self.0.element).nodes.0@.len() > 0 {
                    old(self.0.element).nodes.0@.update(
                        0,
                        Node::ComponentHandle(AnyComponentHandle(handle)),
                    )
                } else {
                    seq![Node::ComponentHandle(AnyComponentHandle(handle))]
                }
            },
            !mounts(self.0.status, old(child).mount_status) ==> {
                &&& render is None
                &&& final(child).mount_status == old(child).mount_status
                &&& final(child).root_element == old(child).root_element
                &&& final(self.0.element).nodes == old(self.0.element).nodes
                &&& *final(self.0.doc) == *old(self.0.doc)
            },
    {
        self.0.component(child, handle)
    }
}

impl<'a, L, H> Attributes<'a, L, H> {
    /// The walk over `handle`, in update mode.
    pub fn new(handle: ElementRender<'a, L, H>) -> (render: Attributes<'a, L, H>)
        ensures
            render.0 == (ElementRender { update_mode: true, ..handle }),
    {
        let mut handle = handle;
        handle.update_mode = true;
        Attributes(handle)
    }

    /// Ends the walk over the attributes and starts the walk over the
    /// children, which never change after they were made.
    pub fn static_nodes(self) -> (render: NodesRender<'a, L, H>)
        ensures
            call_ensures(ElementRender::<'a, L, H>::static_nodes, (self.0,), render),
    {
        self.0.static_nodes()
    }

    /// Ends the walk over the attributes and starts the walk over the
    /// children, which may differ from pass to pass.
    pub fn nodes(self) -> (render: NodesRender<'a, L, H>)
        ensures
            call_ensures(ElementRender::<'a, L, H>::nodes, (self.0,), render),
    {
        self.0.nodes()
    }

    /// Ends the walk over the attributes and starts the walk over the
    /// children as the items of a list, found again by position, as the
    /// walk over the element does.
    pub fn list(self, ns: Option<&'a str>, tag: &'a str, use_template: bool) -> (render: ListRender<
        'a,
        L,
        H,
    >)
        ensures
            call_ensures(ElementRender::<'a, L, H>::list, (self.0, ns, tag, use_template), render),
    {
        self.0.list(ns, tag, use_template)
    }

    /// Ends the walk over the attributes and starts the walk over the
    /// children as the items of a list, found again by key, whose new items
    /// are copies of a template, as the walk over the element does.
    pub fn keyed_list(self, ns: Option<&'a str>, tag: &'a str) -> (render: KeyedListRender<
        'a,
        L,
        H,
    >)
        requires
            old(self.0.element).nodes.0@.len() > 0 ==> old(
                self.0.element,
            ).nodes.0@[0] is KeyedList,
            (old(self.0.element).nodes.0@.len() == 0 || old(
                self.0.element,
            ).nodes.0@[0]->KeyedList_0.template is None) ==> old(self.0.doc).has_room(1),
        ensures
            call_ensures(ElementRender::<'a, L, H>::keyed_list, (self.0, ns, tag), render),
    {
        self.0.keyed_list(ns, tag)
    }

    /// Ends the walk over the attributes and starts the walk over the
    /// children as the items of a list, found again by key, whose new items
    /// are made from nothing, as the walk over the element does.
    pub fn keyed_list_not_use_template(self, ns: Option<&'a str>, tag: &'a str) -> (render:
        KeyedListRender<'a, L, H>)
        requires
            old(self.0.element).nodes.0@.len() > 0 ==> old(
                self.0.element,
            ).nodes.0@[0] is KeyedList,
        ensures
            call_ensures(
                ElementRender::<'a, L, H>::keyed_list_not_use_template,
                (self.0, ns, tag),
                render,
            ),
    {
        self.0.keyed_list_not_use_template(ns, tag)
    }

    /// Ends the walk over the attributes and gives the element to a child
    /// component as its root, as the walk over the element does.
    pub fn component<'b, C>(self, child: &'b mut CompInstance<C, L, H>, handle: H) -> (render:
        Option<(&'b C, ElementRender<'b, L, H>)>) where 'a: 'b
        requires
            old(child).state is Some,
        ensures
            final(child).state == old(child).state,
            final(child).events == old(child).events,
            final(self.0.element).ws_element == old(self.0.element).ws_element,
            final(self.0.element).element_type == old(self.0.element).element_type,
            final(self.0.element).attributes == old(self.0.element).attributes,
            mounts(self.0.status, old(child).mount_status) ==> {
                &&& render is Some
                &&& *render->Some_0.0 == old(child).state->Some_0
                &&& render->Some_0.1.status == root_status(old(child).root_element)
                &&& render->Some_0.1.index == 0
                &&& render->Some_0.1.update_mode
                &&& render->Some_0.1.select_value is None
                &&& render->Some_0.1.element.ws_element == old(self.0.element).ws_element
                &&& render->Some_0.1.element.element_type == old(self.0.element).element_type
                &&& render->Some_0.1.element.attributes == old(child).root_element.attributes
                &&& render->Some_0.1.element.nodes == old(child).root_element.nodes
                &&& render->Some_0.1.doc.recorded(
                    *old(self.0.doc),
                    seq![
                        DomOpView::SetTextContent {
                            node: old(self.0.element).ws_element,
                            content: None,
                        },
                    ] + nodes_append_ops(
                        old(child).root_element.nodes.0@,
                        old(child).root_element.nodes.0@.len(),
                        old(self.0.element).ws_element,
                    ),
                )
                &&& final(child).mount_status == mounted(old(child).mount_status)
                &&& final(child).root_element == *final(render->Some_0.1.element)
                &&& *final(self.0.doc) == *final(render->Some_0.1.doc)
                &&& final(self.0.element).nodes.0@ == if old(self.0.element).nodes.0@.len() > 0 {
                    old(self.0.element).nodes.0@.update(
                        0,
                        Node::ComponentHandle(AnyComponentHandle(handle)),
                    )
                } else {
                    seq![Node::ComponentHandle(AnyComponentHandle(handle))]
                }
            },
            !mounts(self.0.status, old(child).mount_status) ==> {
                &&& render is None
                &&& final(child).mount_status == old(child).mount_status
                &&& final(child).root_element == old(child).root_element
                &&& final(self.0.element).nodes == old(self.0.element).nodes
                &&& *final(self.0.doc) == *old(self.0.doc)
            },
    {
        self.0.component(child, handle)
    }
}

} // verus!
