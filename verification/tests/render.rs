use spair::component::CompInstance;
use spair::component::MountStatus;
use spair::dom::document::Document;
use spair::dom::document::DomOp;
use spair::dom::document::Value;
use spair::dom::keyed_list::ListItemKey;
use spair::dom::element::Element;
use spair::dom::element::ElementStatus;
use spair::dom::element::ElementType;
use spair::dom::nodes::Node;
use spair::render::element::Attributes;
use spair::render::element::ElementRender;
use spair::render::element::StaticAttributes;

type E = Element<u32, u32>;

fn insert(parent: u64, child: u64, next_sibling: Option<u64>) -> DomOp {
    DomOp::InsertBefore { parent, child, next_sibling }
}

fn create(node: u64, tag: &str) -> DomOp {
    DomOp::CreateElement { node, namespace: None, tag: tag.to_string() }
}

fn set(node: u64, name: &str, value: Value) -> DomOp {
    DomOp::SetAttribute { node, name: name.to_string(), value }
}

fn status_of(root: &E) -> ElementStatus {
    if root.is_empty() {
        ElementStatus::JustCreated
    } else {
        ElementStatus::Existing
    }
}

/// A render function: a card with a title, a counter and a list of tags.
fn render_card(root: &mut E, doc: &mut Document, title: &str, count: i32, on: bool, tags: &[&str]) -> Vec<u32> {
    let mut bound = Vec::new();
    let status = status_of(root);
    let mut walk = StaticAttributes::new(ElementRender::new(root, doc, status));
    walk.0.set_str_attribute("class", "card");
    if walk.0.require_set_listener() {
        walk.0.store_listener(1);
        bound.push(1);
    }
    let mut walk = walk.attributes();
    walk.0.set_bool_attribute("hidden", !on);
    walk.0.set_i32_attribute("tabindex", count);
    walk.0.class_if("active", on);
    let mut nodes = walk.nodes();
    {
        let mut heading = nodes.get_element_render(None, "h1");
        heading.set_u32_attribute("size", 2);
        heading.nodes().update_text(title);
    }
    nodes.next_index();
    nodes.static_text("tags: ");
    {
        let mut list = nodes.get_list_render(None, "li", true);
        for tag in tags {
            let mut item = list.next_item();
            if item.require_set_listener() {
                item.store_listener(2);
                bound.push(2);
            }
            item.nodes().update_text(tag);
        }
        list.finish();
    }
    bound
}

#[test]
fn rendering_twice_writes_nothing_the_second_time() {
    let mut doc = Document::new();
    let mut root: E = Element::from_ws_element(doc.new_node(), ElementType::Other);
    let bound = render_card(&mut root, &mut doc, "Title", 3, true, &["a", "b", "c"]);
    assert_eq!(bound, vec![1, 2, 2, 2]);
    let first = doc.take_ops();
    assert!(!first.is_empty());
    let created = doc.next_node();
    let bound = render_card(&mut root, &mut doc, "Title", 3, true, &["a", "b", "c"]);
    assert_eq!(doc.take_ops(), vec![]);
    assert_eq!(doc.next_node(), created);
    assert!(bound.is_empty());
    let bound = render_card(&mut root, &mut doc, "Title", 3, true, &["a", "b", "c"]);
    assert_eq!(doc.take_ops(), vec![]);
    assert!(bound.is_empty());
}

#[test]
fn first_pass_creates_what_it_visits_in_order() {
    let mut doc = Document::new();
    let mut root: E = Element::from_ws_element(doc.new_node(), ElementType::Other);
    render_card(&mut root, &mut doc, "T", -1, false, &["a", "b"]);
    assert_eq!(
        doc.take_ops(),
        vec![
            set(0, "class", Value::Str("card".to_string())),
            set(0, "hidden", Value::Str(String::new())),
            set(0, "tabindex", Value::I32(-1)),
            DomOp::RemoveClass { node: 0, name: "active".to_string() },
            create(1, "h1"),
            insert(0, 1, None),
            set(1, "size", Value::U32(2)),
            DomOp::CreateText { node: 2, text: "T".to_string() },
            insert(1, 2, None),
            DomOp::CreateText { node: 3, text: "tags: ".to_string() },
            insert(0, 3, None),
            DomOp::CreateMarker { node: 4 },
            insert(0, 4, None),
            create(5, "li"),
            insert(0, 5, Some(4)),
            DomOp::CreateText { node: 6, text: "a".to_string() },
            insert(5, 6, None),
            // the second item is a copy of the first
            DomOp::CloneNode { source: 5, node: 7 },
            DomOp::CloneNode { source: 6, node: 8 },
            insert(7, 8, None),
            insert(0, 7, Some(4)),
            DomOp::SetTextContent { node: 8, content: Some("b".to_string()) },
        ]
    );
}

#[test]
fn later_pass_writes_only_what_changed() {
    let mut doc = Document::new();
    let mut root: E = Element::from_ws_element(doc.new_node(), ElementType::Other);
    render_card(&mut root, &mut doc, "T", 1, true, &["a", "b", "c"]);
    doc.take_ops();
    // the counter changes
    render_card(&mut root, &mut doc, "T", 2, true, &["a", "b", "c"]);
    assert_eq!(doc.take_ops(), vec![set(0, "tabindex", Value::I32(2))]);
    // the flag changes: the boolean attribute is set, the class goes
    render_card(&mut root, &mut doc, "T", 2, false, &["a", "b", "c"]);
    assert_eq!(
        doc.take_ops(),
        vec![
            set(0, "hidden", Value::Str(String::new())),
            DomOp::RemoveClass { node: 0, name: "active".to_string() },
        ]
    );
    render_card(&mut root, &mut doc, "T", 2, true, &["a", "b", "c"]);
    assert_eq!(
        doc.take_ops(),
        vec![
            DomOp::RemoveAttribute { node: 0, name: "hidden".to_string() },
            DomOp::AddClass { node: 0, name: "active".to_string() },
        ]
    );
    // the title and one tag change
    render_card(&mut root, &mut doc, "U", 2, true, &["a", "x", "c"]);
    assert_eq!(
        doc.take_ops(),
        vec![
            DomOp::SetTextContent { node: 2, content: Some("U".to_string()) },
            DomOp::SetTextContent { node: 8, content: Some("x".to_string()) },
        ]
    );
    // the list shrinks: the items that are left over go
    render_card(&mut root, &mut doc, "U", 2, true, &["a"]);
    assert_eq!(
        doc.take_ops(),
        vec![
            DomOp::RemoveChild { parent: 0, child: 7 },
            DomOp::RemoveChild { parent: 0, child: 9 },
        ]
    );
}

#[test]
fn copied_element_binds_every_listener_it_declares() {
    let mut doc = Document::new();
    let mut root: E = Element::from_ws_element(doc.new_node(), ElementType::Other);
    // the first item is made: its listener is bound
    let bound = render_card(&mut root, &mut doc, "T", 1, true, &["a"]);
    assert_eq!(bound, vec![1, 2]);
    // it is there now: nothing is bound
    let bound = render_card(&mut root, &mut doc, "T", 1, true, &["a"]);
    assert!(bound.is_empty());
    // new items are copies: each binds its listener although the copy of
    // the cache has a record at the position and no value changed
    let bound = render_card(&mut root, &mut doc, "T", 1, true, &["a", "a", "a"]);
    assert_eq!(bound, vec![2, 2]);
    let list = match &root.nodes.0[2] {
        Node::GroupedNodes(group) => &group.nodes,
        _ => panic!("a fragment is expected"),
    };
    assert_eq!(list.count(), 3);
    for node in list.0.iter() {
        match node {
            Node::Element(item) => {
                assert_eq!(item.attributes.count(), 1);
                assert!(item.attributes.holds_listener(0));
            }
            _ => panic!("an element is expected"),
        }
    }
}

#[test]
fn status_decides_whether_a_listener_is_bound() {
    let mut doc = Document::new();
    let mut element: E = Element::from_ws_element(doc.new_node(), ElementType::Other);
    for (status, bind) in [
        (ElementStatus::JustCreated, true),
        (ElementStatus::Existing, false),
        (ElementStatus::JustCloned, true),
    ] {
        let mut walk = ElementRender::new(&mut element, &mut doc, status);
        assert_eq!(walk.require_set_listener(), bind);
        assert_eq!(walk.index, if bind { 0 } else { 1 });
        let mut walk = StaticAttributes::new(ElementRender::new(&mut element, &mut doc, status));
        assert_eq!(walk.0.require_set_listener(), bind);
        let mut walk = Attributes::new(ElementRender::new(&mut element, &mut doc, status));
        assert_eq!(walk.0.require_set_listener(), bind);
    }
}

#[test]
fn static_attributes_are_written_when_the_element_is_made() {
    let mut doc = Document::new();
    let mut element: E = Element::from_ws_element(doc.new_node(), ElementType::Input);
    for (status, write) in [
        (ElementStatus::JustCreated, true),
        (ElementStatus::Existing, false),
        (ElementStatus::JustCloned, false),
    ] {
        let mut walk = StaticAttributes::new(ElementRender::new(&mut element, &mut doc, status));
        assert_eq!(walk.0.check_bool_attribute(true), write);
        assert_eq!(walk.0.check_str_attribute("s"), write);
        assert_eq!(walk.0.check_i32_attribute(1), write);
        assert_eq!(walk.0.check_u32_attribute(1), write);
        assert_eq!(walk.0.check_f64_attribute(1, true), write);
        assert_eq!(walk.0.f64_attribute(), None);
        walk.0.set_f64_attribute("low", 2.0f64.to_bits(), false);
        walk.0.checked(true);
        walk.0.value("v");
        walk.0.href("/home");
        // a static value takes no position
        assert_eq!(walk.0.index, 0);
        let ops = doc.take_ops();
        if write {
            assert_eq!(
                ops,
                vec![
                    set(0, "low", Value::F64(2.0f64.to_bits())),
                    DomOp::SetChecked { node: 0, checked: true },
                    DomOp::SetValue { node: 0, text: "v".to_string() },
                    set(0, "href", Value::Str("/home".to_string())),
                ]
            );
        } else {
            assert_eq!(ops, vec![]);
        }
    }
    assert_eq!(element.attributes.count(), 0);
}

#[test]
fn float_attribute_is_compared_by_the_caller() {
    let mut doc = Document::new();
    let mut element: E = Element::from_ws_element(doc.new_node(), ElementType::Other);
    let render = |element: &mut E, doc: &mut Document, value: f64| {
        let mut walk = ElementRender::new(element, doc, ElementStatus::Existing);
        let close = match walk.f64_attribute() {
            Some(bits) => (value - f64::from_bits(bits)).abs() < f64::EPSILON,
            None => false,
        };
        walk.set_f64_attribute("high", value.to_bits(), close);
    };
    render(&mut element, &mut doc, 0.5);
    assert_eq!(doc.take_ops(), vec![set(0, "high", Value::F64(0.5f64.to_bits()))]);
    render(&mut element, &mut doc, 0.5);
    render(&mut element, &mut doc, 0.5 + f64::EPSILON / 4.0);
    assert_eq!(doc.take_ops(), vec![]);
    render(&mut element, &mut doc, 0.75);
    assert_eq!(doc.take_ops(), vec![set(0, "high", Value::F64(0.75f64.to_bits()))]);
}

#[test]
fn checked_and_value_go_to_form_controls_only() {
    let mut doc = Document::new();
    let mut div: E = Element::from_ws_element(doc.new_node(), ElementType::Other);
    {
        let mut walk = ElementRender::new(&mut div, &mut doc, ElementStatus::JustCreated);
        walk.checked(true);
        walk.value("v");
        walk.focus(false);
        assert_eq!(walk.index, 2);
    }
    assert_eq!(doc.take_ops(), vec![]);
    assert_eq!(div.attributes.count(), 2);
    let mut area: E = Element::from_ws_element(doc.new_node(), ElementType::TextArea);
    {
        let mut walk = ElementRender::new(&mut area, &mut doc, ElementStatus::JustCreated);
        walk.value("v");
        walk.value("w");
        walk.focus(true);
        walk.id("main");
    }
    {
        let mut walk = ElementRender::new(&mut area, &mut doc, ElementStatus::Existing);
        walk.value("v");
        walk.value("x");
        walk.id("main");
    }
    assert_eq!(
        doc.take_ops(),
        vec![
            DomOp::SetValue { node: 1, text: "v".to_string() },
            DomOp::SetValue { node: 1, text: "w".to_string() },
            DomOp::Focus { node: 1 },
            DomOp::SetId { node: 1, id: "main".to_string() },
            DomOp::SetValue { node: 1, text: "x".to_string() },
            DomOp::SetId { node: 1, id: "main".to_string() },
        ]
    );
}

#[test]
fn value_of_a_selection_waits_for_its_options() {
    let mut doc = Document::new();
    let mut select: E = Element::new_ns(None, "select", &mut doc);
    assert_eq!(select.element_type, ElementType::Select);
    doc.take_ops();
    let render = |select: &mut E, doc: &mut Document, value: &str, options: &[&str]| {
        let mut walk = ElementRender::new(select, doc, ElementStatus::Existing);
        walk.value(value);
        let mut list = walk.list(None, "option", false);
        for option in options {
            let item = list.next_item();
            item.nodes().update_text(option);
        }
        list.finish();
    };
    render(&mut select, &mut doc, "b", &["a", "b"]);
    assert_eq!(
        doc.take_ops(),
        vec![
            create(1, "option"),
            insert(0, 1, None),
            DomOp::CreateText { node: 2, text: "a".to_string() },
            insert(1, 2, None),
            create(3, "option"),
            insert(0, 3, None),
            DomOp::CreateText { node: 4, text: "b".to_string() },
            insert(3, 4, None),
            DomOp::SetValue { node: 0, text: "b".to_string() },
        ]
    );
    // the same value again: nothing is written
    render(&mut select, &mut doc, "b", &["a", "b"]);
    assert_eq!(doc.take_ops(), vec![]);
    // another value, with one option less
    render(&mut select, &mut doc, "a", &["a"]);
    assert_eq!(
        doc.take_ops(),
        vec![
            DomOp::RemoveChild { parent: 0, child: 3 },
            DomOp::SetValue { node: 0, text: "a".to_string() },
        ]
    );
}

#[test]
fn conditional_renders_one_arm() {
    let mut doc = Document::new();
    let mut root: E = Element::from_ws_element(doc.new_node(), ElementType::Other);
    let render = |root: &mut E, doc: &mut Document, arm: u32| -> ElementStatus {
        let status = status_of(root);
        let mut nodes = ElementRender::new(root, doc, status).nodes();
        let status = {
            let match_if = nodes.get_match_if_render();
            let mut arm_nodes = match_if.render_on_arm_index(arm);
            if arm == 0 {
                arm_nodes.update_text("zero");
            } else {
                arm_nodes.get_element_render(None, "b");
                arm_nodes.next_index();
            }
            arm_nodes.parent_status
        };
        nodes.static_text("after");
        status
    };
    assert_eq!(render(&mut root, &mut doc, 0), ElementStatus::JustCreated);
    assert_eq!(
        doc.take_ops(),
        vec![
            DomOp::CreateMarker { node: 1 },
            insert(0, 1, None),
            DomOp::CreateText { node: 2, text: "zero".to_string() },
            insert(0, 2, Some(1)),
            DomOp::CreateText { node: 3, text: "after".to_string() },
            insert(0, 3, None),
        ]
    );
    assert_eq!(render(&mut root, &mut doc, 0), ElementStatus::Existing);
    assert_eq!(doc.take_ops(), vec![]);
    // the other arm: what the first arm rendered goes, before the marker
    // comes what the second renders, and what follows stays untouched
    assert_eq!(render(&mut root, &mut doc, 1), ElementStatus::JustCreated);
    assert_eq!(
        doc.take_ops(),
        vec![DomOp::RemoveChild { parent: 0, child: 2 }, create(4, "b"), insert(0, 4, Some(1))]
    );
    assert_eq!(render(&mut root, &mut doc, 1), ElementStatus::Existing);
    assert_eq!(doc.take_ops(), vec![]);
}

#[test]
fn static_mode_renders_under_a_new_parent_only() {
    let mut doc = Document::new();
    let mut root: E = Element::from_ws_element(doc.new_node(), ElementType::Other);
    for (status, render) in [
        (ElementStatus::JustCreated, true),
        (ElementStatus::Existing, false),
        (ElementStatus::JustCloned, false),
    ] {
        let mut nodes = StaticAttributes::new(ElementRender::new(&mut root, &mut doc, status)).static_nodes();
        assert_eq!(nodes.require_render(), render);
        assert_eq!(nodes.parent(), 0);
        nodes.set_update_mode();
        assert!(nodes.require_render());
        nodes.set_static_mode();
        assert_eq!(nodes.require_render(), render);
        let nodes = Attributes::new(ElementRender::new(&mut root, &mut doc, status)).static_nodes();
        assert_eq!(nodes.require_render(), render);
        let nodes = Attributes::new(ElementRender::new(&mut root, &mut doc, status)).nodes();
        assert!(nodes.require_render());
    }
}

#[test]
fn keyed_list_is_rendered_item_by_item() {
    let mut doc = Document::new();
    let mut root: E = Element::new_ns(None, "ul", &mut doc);
    doc.take_ops();
    let render = |root: &mut E, doc: &mut Document, items: &[(u64, &str)]| -> Vec<ElementStatus> {
        let status = status_of(root);
        let walk = Attributes::new(ElementRender::new(root, doc, status));
        let mut list = walk.keyed_list(None, "li");
        if list.require_init_template() {
            let template = list.template_render();
            template.nodes().update_text("");
            list.template_rendered();
        }
        let keys: Vec<ListItemKey> = items.iter().map(|item| ListItemKey::U64(item.0)).collect();
        list.update(&keys);
        for (i, item) in items.iter().enumerate() {
            let walk = list.item_render(i);
            walk.nodes().update_text(item.1);
        }
        let statuses = list.statuses.clone();
        list.finish();
        statuses
    };
    let statuses = render(&mut root, &mut doc, &[(1, "A"), (2, "B"), (3, "C")]);
    assert!(statuses.iter().all(|s| *s == ElementStatus::JustCloned));
    doc.take_ops();
    let statuses = render(&mut root, &mut doc, &[(3, "C"), (1, "A"), (4, "D")]);
    assert_eq!(
        statuses,
        vec![ElementStatus::Existing, ElementStatus::Existing, ElementStatus::JustCloned]
    );
    assert_eq!(
        doc.take_ops(),
        vec![
            insert(0, 7, Some(3)),
            DomOp::CloneNode { source: 1, node: 9 },
            DomOp::CloneNode { source: 2, node: 10 },
            insert(9, 10, None),
            insert(0, 9, Some(5)),
            DomOp::RemoveChild { parent: 0, child: 5 },
            DomOp::SetTextContent { node: 10, content: Some("D".to_string()) },
        ]
    );
    let statuses = render(&mut root, &mut doc, &[(3, "C"), (1, "A"), (4, "D")]);
    assert!(statuses.iter().all(|s| *s == ElementStatus::Existing));
    assert_eq!(doc.take_ops(), vec![]);
}

#[test]
fn keyed_list_without_template_makes_new_items_from_nothing() {
    let mut doc = Document::new();
    let mut root: E = Element::new_ns(None, "ul", &mut doc);
    doc.take_ops();
    {
        let walk = StaticAttributes::new(ElementRender::new(&mut root, &mut doc, ElementStatus::JustCreated));
        let mut list = walk.keyed_list_not_use_template(None, "li");
        assert!(!list.require_init_template());
        list.update(&vec![ListItemKey::I32(1), ListItemKey::I32(2)]);
        assert_eq!(list.statuses, vec![ElementStatus::JustCreated, ElementStatus::JustCreated]);
        list.finish();
    }
    assert_eq!(
        doc.take_ops(),
        vec![create(1, "li"), insert(0, 1, None), create(2, "li"), insert(0, 2, None)]
    );
    assert_eq!(root.nodes.count(), 1);
}

#[test]
fn child_component_is_mounted_under_an_element() {
    let mut doc = Document::new();
    let mut host: E = Element::new_ns(None, "section", &mut doc);
    let mut child: CompInstance<i32, u32, u32> = CompInstance::with_root(None, &mut doc);
    child.set_state(1);
    doc.take_ops();
    // the host was just made: the child is attached and rendered
    {
        let walk = Attributes::new(ElementRender::new(&mut host, &mut doc, ElementStatus::JustCreated));
        match walk.component(&mut child, 42) {
            Some((state, render)) => {
                assert_eq!(*state, 1);
                assert_eq!(render.status(), ElementStatus::JustCreated);
                render.nodes().update_text("child");
            }
            None => panic!("the child has to be attached"),
        }
    }
    assert!(matches!(child.mount_status, MountStatus::Mounted));
    assert_eq!(child.root_element.ws_element, 0);
    match &host.nodes.0[0] {
        Node::ComponentHandle(handle) => assert_eq!(handle.0, 42),
        _ => panic!("a component handle is expected"),
    }
    assert_eq!(
        doc.take_ops(),
        vec![
            DomOp::SetTextContent { node: 0, content: None },
            DomOp::CreateText { node: 2, text: "child".to_string() },
            insert(0, 2, None),
        ]
    );
    // the next pass finds the child attached: nothing is done
    {
        let walk = StaticAttributes::new(ElementRender::new(&mut host, &mut doc, ElementStatus::Existing));
        assert!(walk.component(&mut child, 43).is_none());
    }
    assert_eq!(doc.take_ops(), vec![]);
    // a child that was detached is attached again
    child.set_mount_status_to_unmounted();
    {
        let walk = ElementRender::new(&mut host, &mut doc, ElementStatus::Existing);
        match walk.component(&mut child, 44) {
            Some((_, render)) => assert_eq!(render.status(), ElementStatus::Existing),
            None => panic!("the child has to be attached"),
        }
    }
    assert_eq!(
        doc.take_ops(),
        vec![DomOp::SetTextContent { node: 0, content: None }, insert(0, 2, None)]
    );
    assert_eq!(host.nodes.count(), 1);
}

#[test]
fn elements_inside_a_copy_bind_their_listeners_too() {
    let mut doc = Document::new();
    let mut root: E = Element::from_ws_element(doc.new_node(), ElementType::Other);
    let render = |root: &mut E, doc: &mut Document, count: usize| -> Vec<(ElementStatus, bool)> {
        let mut seen = Vec::new();
        let status = status_of(root);
        let mut list = ElementRender::new(root, doc, status).list(None, "li", true);
        for _ in 0..count {
            let item = list.next_item();
            let mut nodes = item.nodes();
            let mut button = nodes.get_element_render(None, "button");
            let bind = button.require_set_listener();
            if bind {
                button.store_listener(9);
            }
            seen.push((button.status(), bind));
        }
        list.finish();
        seen
    };
    assert_eq!(render(&mut root, &mut doc, 1), vec![(ElementStatus::JustCreated, true)]);
    assert_eq!(
        render(&mut root, &mut doc, 3),
        vec![
            (ElementStatus::Existing, false),
            (ElementStatus::JustCloned, true),
            (ElementStatus::JustCloned, true),
        ]
    );
    assert_eq!(
        render(&mut root, &mut doc, 3),
        vec![
            (ElementStatus::Existing, false),
            (ElementStatus::Existing, false),
            (ElementStatus::Existing, false),
        ]
    );
}

#[test]
fn keyed_list_opened_without_template_never_copies_it() {
    let mut doc = Document::new();
    let mut root: E = Element::new_ns(None, "ul", &mut doc);
    doc.take_ops();
    // one pass with a template: it is rendered, and new items are copies
    {
        let walk = Attributes::new(ElementRender::new(&mut root, &mut doc, ElementStatus::JustCreated));
        let mut list = walk.keyed_list(None, "li");
        assert!(list.use_template);
        assert!(list.require_init_template());
        list.template_render().nodes().update_text("");
        list.template_rendered();
        list.update(&vec![ListItemKey::U32(1)]);
        assert_eq!(list.statuses, vec![ElementStatus::JustCloned]);
        list.finish();
    }
    doc.take_ops();
    // the next pass on the same element asks for no copy
    for status in [ElementStatus::Existing, ElementStatus::JustCloned] {
        let next = doc.next_node();
        let key = ListItemKey::U64(next);
        {
            let walk = StaticAttributes::new(ElementRender::new(&mut root, &mut doc, status));
            let mut list = walk.keyed_list_not_use_template(None, "li");
            assert!(!list.use_template);
            assert!(!list.require_init_template());
            list.update(&vec![ListItemKey::U32(1), key]);
            assert_eq!(list.statuses, vec![ElementStatus::Existing, ElementStatus::JustCreated]);
            list.finish();
        }
        let ops = doc.take_ops();
        assert_eq!(ops[0], create(next, "li"));
        assert!(matches!(ops[1], DomOp::InsertBefore { parent: 0, child, .. } if child == next));
        assert!(ops.iter().all(|op| !matches!(op, DomOp::CloneNode { .. })));
        // and a pass with the template copies it again
        let walk = Attributes::new(ElementRender::new(&mut root, &mut doc, status));
        let mut list = walk.keyed_list(None, "li");
        list.update(&vec![ListItemKey::U32(1), ListItemKey::U32(77)]);
        assert_eq!(list.statuses, vec![ElementStatus::Existing, ElementStatus::JustCloned]);
        list.finish();
        doc.take_ops();
    }
}
