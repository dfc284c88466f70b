use spair::dom::document::Document;
use spair::dom::document::DomOp;
use spair::dom::keyed_list::empty_places;
use spair::dom::keyed_list::KeyedElement;
use spair::dom::keyed_list::KeyedList;
use spair::dom::keyed_list::ListItemKey;
use spair::dom::old_elements::OldElementsMap;
use spair::dom::element::Element;
use spair::dom::element::ElementStatus;

const PARENT: u64 = 0;

/// What the children of `PARENT` are after the operations, as the display
/// carries them out.
fn replay(children: &mut Vec<u64>, ops: &[DomOp]) {
    for op in ops {
        match op {
            DomOp::InsertBefore { parent, child, next_sibling } => {
                children.retain(|c| c != child);
                if *parent == PARENT {
                    match next_sibling {
                        Some(next) => {
                            let at = children
                                .iter()
                                .position(|c| c == next)
                                .expect("the next sibling is a child of the parent");
                            children.insert(at, *child);
                        }
                        None => children.push(*child),
                    }
                }
            }
            DomOp::RemoveChild { parent, child } => {
                if *parent == PARENT {
                    assert!(children.contains(child), "only a child can be taken away");
                    children.retain(|c| c != child);
                }
            }
            _ => {}
        }
    }
}

fn key(name: &str) -> ListItemKey {
    ListItemKey::from_str(name)
}

fn keys(names: &[&str]) -> Vec<ListItemKey> {
    names.iter().map(|n| key(n)).collect()
}

fn elements(list: &KeyedList<u32, u32>) -> Vec<u64> {
    list.active_nodes()
        .iter()
        .map(|item| item.as_ref().expect("every place is filled").element.ws_element)
        .collect()
}

fn names_of(list: &KeyedList<u32, u32>) -> Vec<ListItemKey> {
    list.active_nodes()
        .iter()
        .map(|item| item.as_ref().expect("every place is filled").key.clone())
        .collect()
}

fn creations(ops: &[DomOp]) -> usize {
    ops.iter().filter(|op| matches!(op, DomOp::CreateElement { .. })).count()
}

fn removals(ops: &[DomOp]) -> Vec<u64> {
    ops.iter()
        .filter_map(|op| match op {
            DomOp::RemoveChild { child, .. } => Some(*child),
            _ => None,
        })
        .collect()
}

/// A list rendered once for the given keys, with the display in step.
fn rendered(names: &[&str]) -> (KeyedList<u32, u32>, Document, Vec<u64>) {
    let mut doc = Document::new();
    assert_eq!(doc.new_node(), PARENT);
    let mut list = KeyedList::new();
    let statuses = list.reconcile(&keys(names), None, "li", PARENT, None, true, &mut doc);
    assert!(statuses.iter().all(|s| *s == ElementStatus::JustCreated));
    let mut children = Vec::new();
    replay(&mut children, &doc.take_ops());
    assert_eq!(children, elements(&list));
    (list, doc, children)
}

#[test]
fn keyed_reconciliation_reuses_creates_removes_and_orders() {
    let (mut list, mut doc, mut children) = rendered(&["k1", "k2", "k3"]);
    assert_eq!(children, vec![1, 2, 3]);

    let statuses = list.reconcile(&keys(&["k3", "k1", "k4"]), None, "li", PARENT, None, true, &mut doc);
    let ops = doc.take_ops();
    // k3 and k1 keep their elements, k4 gets a new one
    assert_eq!(
        statuses,
        vec![ElementStatus::Existing, ElementStatus::Existing, ElementStatus::JustCreated]
    );
    assert_eq!(elements(&list), vec![3, 1, 4]);
    assert_eq!(names_of(&list), keys(&["k3", "k1", "k4"]));
    // exactly one element is made and exactly one, that of k2, is removed
    assert_eq!(creations(&ops), 1);
    assert_eq!(removals(&ops), vec![2]);
    assert_eq!(
        ops,
        vec![
            DomOp::InsertBefore { parent: 0, child: 3, next_sibling: Some(1) },
            DomOp::CreateElement { node: 4, namespace: None, tag: "li".to_string() },
            DomOp::InsertBefore { parent: 0, child: 4, next_sibling: Some(2) },
            DomOp::RemoveChild { parent: 0, child: 2 },
        ]
    );
    // the display shows the new sequence
    replay(&mut children, &ops);
    assert_eq!(children, vec![3, 1, 4]);
    assert!(list.buffer.iter().all(|slot| slot.is_none()));
    assert_eq!(list.buffer.len(), 3);
}

#[test]
fn same_keys_in_the_same_order_touch_nothing() {
    let (mut list, mut doc, children) = rendered(&["a", "b", "c", "d"]);
    let statuses = list.reconcile(&keys(&["a", "b", "c", "d"]), None, "li", PARENT, None, true, &mut doc);
    assert!(statuses.iter().all(|s| *s == ElementStatus::Existing));
    assert_eq!(doc.pending(), 0);
    assert_eq!(elements(&list), children);
}

#[test]
fn reversed_keys_keep_every_element() {
    let (mut list, mut doc, mut children) = rendered(&["a", "b", "c", "d"]);
    let statuses = list.reconcile(&keys(&["d", "c", "b", "a"]), None, "li", PARENT, None, true, &mut doc);
    assert!(statuses.iter().all(|s| *s == ElementStatus::Existing));
    let ops = doc.take_ops();
    assert_eq!(creations(&ops), 0);
    assert!(removals(&ops).is_empty());
    // the last item is the first that waits when its turn comes
    assert_eq!(ops.len(), 3);
    replay(&mut children, &ops);
    assert_eq!(children, vec![4, 3, 2, 1]);
    assert_eq!(elements(&list), vec![4, 3, 2, 1]);
}

#[test]
fn swapped_items_are_put_in_place() {
    let (mut list, mut doc, mut children) = rendered(&["a", "b", "c", "d", "e"]);
    list.reconcile(&keys(&["a", "d", "c", "b", "e"]), None, "li", PARENT, None, true, &mut doc);
    let ops = doc.take_ops();
    assert_eq!(creations(&ops), 0);
    assert!(removals(&ops).is_empty());
    replay(&mut children, &ops);
    assert_eq!(children, vec![1, 4, 3, 2, 5]);
    assert_eq!(elements(&list), children);
}

#[test]
fn removed_item_is_taken_away_without_moving_the_others() {
    let (mut list, mut doc, mut children) = rendered(&["a", "b", "c"]);
    list.reconcile(&keys(&["a", "c"]), None, "li", PARENT, None, true, &mut doc);
    let ops = doc.take_ops();
    assert_eq!(
        ops,
        vec![
            DomOp::InsertBefore { parent: 0, child: 3, next_sibling: Some(2) },
            DomOp::RemoveChild { parent: 0, child: 2 },
        ]
    );
    replay(&mut children, &ops);
    assert_eq!(children, vec![1, 3]);
}

#[test]
fn inserted_item_goes_before_the_first_that_waits() {
    let (mut list, mut doc, mut children) = rendered(&["a", "c"]);
    let statuses = list.reconcile(&keys(&["a", "b", "c"]), None, "li", PARENT, None, true, &mut doc);
    assert_eq!(
        statuses,
        vec![ElementStatus::Existing, ElementStatus::JustCreated, ElementStatus::Existing]
    );
    let ops = doc.take_ops();
    assert_eq!(
        ops,
        vec![
            DomOp::CreateElement { node: 3, namespace: None, tag: "li".to_string() },
            DomOp::InsertBefore { parent: 0, child: 3, next_sibling: Some(2) },
        ]
    );
    replay(&mut children, &ops);
    assert_eq!(children, vec![1, 3, 2]);
}

#[test]
fn items_stay_before_what_follows_the_list() {
    let mut doc = Document::new();
    assert_eq!(doc.new_node(), PARENT);
    let marker = doc.new_node();
    let mut children = vec![marker];
    let mut list: KeyedList<u32, u32> = KeyedList::new();
    list.reconcile(&keys(&["a", "b"]), None, "li", PARENT, Some(marker), true, &mut doc);
    replay(&mut children, &doc.take_ops());
    assert_eq!(children, vec![2, 3, marker]);
    list.reconcile(&keys(&["c", "b", "a"]), None, "li", PARENT, Some(marker), true, &mut doc);
    replay(&mut children, &doc.take_ops());
    assert_eq!(children, vec![4, 3, 2, marker]);
    list.reconcile(&keys(&[]), None, "li", PARENT, Some(marker), true, &mut doc);
    replay(&mut children, &doc.take_ops());
    assert_eq!(children, vec![marker]);
    assert_eq!(list.active_nodes().len(), 0);
}

#[test]
fn a_key_that_comes_twice_takes_one_old_element_each_time() {
    let (mut list, mut doc, mut children) = rendered(&["a", "b"]);
    let statuses = list.reconcile(&keys(&["b", "b", "a"]), None, "li", PARENT, None, true, &mut doc);
    assert_eq!(
        statuses,
        vec![ElementStatus::Existing, ElementStatus::JustCreated, ElementStatus::Existing]
    );
    replay(&mut children, &doc.take_ops());
    assert_eq!(children, vec![2, 3, 1]);
    assert_eq!(elements(&list), vec![2, 3, 1]);
    // both old elements of the key are found again, in their order
    let statuses = list.reconcile(&keys(&["b", "a", "b"]), None, "li", PARENT, None, true, &mut doc);
    assert!(statuses.iter().all(|s| *s == ElementStatus::Existing));
    replay(&mut children, &doc.take_ops());
    assert_eq!(children, vec![2, 1, 3]);
    // one of them goes when the key comes once only
    list.reconcile(&keys(&["b"]), None, "li", PARENT, None, true, &mut doc);
    let ops = doc.take_ops();
    assert_eq!(removals(&ops), vec![1, 3]);
    replay(&mut children, &ops);
    assert_eq!(children, vec![2]);
}

#[test]
fn keys_of_different_kinds_are_different_keys() {
    let mut doc = Document::new();
    assert_eq!(doc.new_node(), PARENT);
    let mut list: KeyedList<u32, u32> = KeyedList::new();
    let first = vec![
        ListItemKey::I32(1),
        ListItemKey::U32(1),
        ListItemKey::I64(1),
        ListItemKey::U64(1),
        ListItemKey::ISize(1),
        ListItemKey::USize(1),
        ListItemKey::Uuid(1),
        ListItemKey::String("1".to_string()),
    ];
    list.reconcile(&first, None, "li", PARENT, None, true, &mut doc);
    assert_eq!(elements(&list), vec![1, 2, 3, 4, 5, 6, 7, 8]);
    doc.take_ops();
    let second = vec![ListItemKey::String("1".to_string()), ListItemKey::U64(1), ListItemKey::U64(2)];
    let statuses = list.reconcile(&second, None, "li", PARENT, None, true, &mut doc);
    assert_eq!(
        statuses,
        vec![ElementStatus::Existing, ElementStatus::Existing, ElementStatus::JustCreated]
    );
    assert_eq!(elements(&list), vec![8, 4, 9]);
    for (i, a) in first.iter().enumerate() {
        for (j, b) in first.iter().enumerate() {
            assert_eq!(a.same(b), i == j);
            assert_eq!(a.clone().same(b), i == j);
        }
    }
}

#[test]
fn new_items_are_copies_of_a_rendered_template() {
    let mut doc = Document::new();
    assert_eq!(doc.new_node(), PARENT);
    let mut list: KeyedList<u32, u32> = KeyedList::new();
    // a list without a template gets one, which has to be rendered
    assert!(list.require_init_template(None, "li", &mut doc));
    assert!(list.require_init_template(None, "li", &mut doc));
    assert_eq!(
        doc.take_ops(),
        vec![DomOp::CreateElement { node: 1, namespace: None, tag: "li".to_string() }]
    );
    // while it is not rendered, new items are made from nothing
    let statuses = list.reconcile(&keys(&["a"]), None, "li", PARENT, None, true, &mut doc);
    assert_eq!(statuses, vec![ElementStatus::JustCreated]);
    doc.take_ops();
    {
        let (template, _, _, _) = list.items_mut();
        let template = template.as_mut().expect("the template was made");
        template.element.attributes.store_listener(0, 5);
        template.element.nodes.update_text(0, "label", 1, None, &mut doc);
        template.rendered = true;
    }
    doc.take_ops();
    assert!(!list.require_init_template(None, "li", &mut doc));
    let statuses = list.reconcile(&keys(&["b", "a"]), None, "li", PARENT, None, true, &mut doc);
    assert_eq!(statuses, vec![ElementStatus::JustCloned, ElementStatus::Existing]);
    assert_eq!(
        doc.take_ops(),
        vec![
            DomOp::CloneNode { source: 1, node: 4 },
            DomOp::CloneNode { source: 3, node: 5 },
            DomOp::InsertBefore { parent: 4, child: 5, next_sibling: None },
            DomOp::InsertBefore { parent: 0, child: 4, next_sibling: Some(2) },
        ]
    );
    let copy = &list.active_nodes()[0].as_ref().expect("the place is filled").element;
    assert_eq!(copy.attributes.count(), 1);
    assert!(!copy.attributes.holds_listener(0));
}

#[test]
fn pre_update_swaps_the_places() {
    let mut doc = Document::new();
    let mut list: KeyedList<u32, u32> = KeyedList::new();
    list.pre_update(2);
    assert_eq!(list.active.len(), 2);
    assert_eq!(list.buffer.len(), 0);
    assert!(list.active.iter().all(|slot| slot.is_none()));
    assert!(list.get_first_element().is_none());
    assert!(list.get_last_element().is_none());
    list.active[0] = Some(KeyedElement::new(key("a"), Element::new_ns(None, "li", &mut doc)));
    list.active[1] = Some(KeyedElement::new(key("b"), Element::new_ns(None, "li", &mut doc)));
    assert_eq!(list.get_first_element().map(|e| e.ws_element), Some(0));
    assert_eq!(list.get_last_element().map(|e| e.ws_element), Some(1));
    list.pre_update(5);
    assert_eq!(list.active.len(), 5);
    assert!(list.active.iter().all(|slot| slot.is_none()));
    assert_eq!(list.buffer.len(), 2);
    assert!(list.buffer.iter().all(|slot| slot.is_some()));
    let places: Vec<Option<KeyedElement<u32, u32>>> = empty_places(3);
    assert_eq!(places.len(), 3);
}

#[test]
fn one_item_is_placed_at_a_time() {
    let (mut list, mut doc, mut children) = rendered(&["a", "b", "c"]);
    list.pre_update(2);
    list.index_old_elements();
    assert_eq!(list.first_waiting(), 0);
    let status = list.place_item(0, key("c"), None, "li", PARENT, None, true, &mut doc);
    assert_eq!(status, ElementStatus::Existing);
    assert!(list.buffer[2].is_none());
    assert_eq!(
        doc.take_ops(),
        vec![DomOp::InsertBefore { parent: 0, child: 3, next_sibling: Some(1) }]
    );
    // the first that waits needs no move
    let status = list.place_item(1, key("a"), None, "li", PARENT, None, true, &mut doc);
    assert_eq!(status, ElementStatus::Existing);
    assert_eq!(doc.pending(), 0);
    assert_eq!(list.first_waiting(), 1);
    assert!(list.take_old_element(&key("a")).is_none());
    assert!(list.take_old_element(&key("x")).is_none());
    list.remove_old_elements(PARENT, &mut doc);
    let ops = doc.take_ops();
    assert_eq!(ops, vec![DomOp::RemoveChild { parent: 0, child: 2 }]);
    replay(&mut children, &[DomOp::InsertBefore { parent: 0, child: 3, next_sibling: Some(1) }]);
    replay(&mut children, &ops);
    assert_eq!(children, vec![3, 1]);
    assert_eq!(elements(&list), vec![3, 1]);
}

#[test]
fn whole_list_leaves_and_comes_back() {
    let (list, mut doc, _) = rendered(&["a", "b"]);
    list.append_to(9, &mut doc);
    assert_eq!(
        doc.take_ops(),
        vec![
            DomOp::InsertBefore { parent: 9, child: 1, next_sibling: None },
            DomOp::InsertBefore { parent: 9, child: 2, next_sibling: None },
        ]
    );
    list.remove_from(9, &mut doc);
    list.remove_from_dom(9, &mut doc);
    assert_eq!(
        doc.take_ops(),
        vec![
            DomOp::RemoveChild { parent: 9, child: 1 },
            DomOp::RemoveChild { parent: 9, child: 2 },
            DomOp::RemoveChild { parent: 9, child: 1 },
            DomOp::RemoveChild { parent: 9, child: 2 },
        ]
    );
}

#[test]
fn key_of_an_identifier_holds_its_bits() {
    let id = uuid::Uuid::from_u128(0x0123_4567_89ab_cdef_0123_4567_89ab_cdef);
    let key = ListItemKey::from_uuid(&id);
    assert_eq!(key, ListItemKey::Uuid(0x0123_4567_89ab_cdef_0123_4567_89ab_cdef));
    assert!(key.same(&ListItemKey::Uuid(0x0123_4567_89ab_cdef_0123_4567_89ab_cdef)));
    assert!(!key.same(&ListItemKey::Uuid(1)));
    let other = uuid::Uuid::from_bytes([0, 0, 0, 0, 0, 0, 0, 0, 0, 0, 0, 0, 0, 0, 1, 2]);
    assert_eq!(ListItemKey::from_uuid(&other), ListItemKey::Uuid(258));
}

#[test]
fn a_pass_needs_room_for_its_new_items() {
    let (mut list, mut doc, _) = rendered(&["a"]);
    assert!(list.can_reconcile(0, true, &doc));
    assert!(list.can_reconcile(1000, true, &doc));
    // a template of two nodes doubles what a new item takes
    assert!(list.require_init_template(None, "li", &mut doc));
    {
        let (template, _, _, _) = list.items_mut();
        let template = template.as_mut().expect("the template was made");
        template.element.nodes.update_text(0, "label", 2, None, &mut doc);
        template.rendered = true;
    }
    assert_eq!(
        list.template.as_ref().map(|t| t.element.copy_size()),
        Some(Some(2))
    );
    assert!(list.can_reconcile(10, true, &doc));
    assert!(!list.can_reconcile(usize::MAX, true, &doc));
    // a template that cannot be copied lets no pass through
    {
        let (template, _, _, _) = list.items_mut();
        let template = template.as_mut().expect("the template was made");
        template.element.nodes.store_component_handle(spair::dom::nodes::AnyComponentHandle(1));
    }
    assert!(!list.can_reconcile(1, true, &doc));
}

#[test]
fn old_items_are_found_by_key() {
    let (mut list, _, _) = rendered(&["a", "b", "a", "c"]);
    list.pre_update(0);
    let map = OldElementsMap::build(&list.buffer);
    assert_eq!(map.find(&list.buffer, &key("a")), Some(0));
    assert_eq!(map.find(&list.buffer, &key("b")), Some(1));
    assert_eq!(map.find(&list.buffer, &key("c")), Some(3));
    assert_eq!(map.find(&list.buffer, &key("d")), None);
    assert_eq!(map.find(&list.buffer, &ListItemKey::U32(0)), None);
    list.index_old_elements();
    // an item that is taken is found no more: the next of its key is
    let old = list.take_old_element(&key("a")).expect("an item of the key waits");
    assert_eq!(old.index, 0);
    assert_eq!(old.element.ws_element, 1);
    assert_eq!(list.first_waiting(), 1);
    let old = list.take_old_element(&key("a")).expect("an item of the key waits");
    assert_eq!(old.index, 2);
    assert_eq!(old.element.ws_element, 3);
    assert!(list.take_old_element(&key("a")).is_none());
    let old = list.take_old_element(&key("b")).expect("an item of the key waits");
    assert_eq!(old.index, 1);
    assert_eq!(list.first_waiting(), 3);
    assert!(list.take_old_element(&key("c")).is_some());
    assert_eq!(list.first_waiting(), 4);
    let empty = OldElementsMap::new();
    assert_eq!(empty.find(&Vec::<Option<KeyedElement<u32, u32>>>::new(), &key("a")), None);
}

#[test]
fn hash_of_a_key_is_the_hash_of_its_value() {
    // the hash of a string is made of its bytes, one after the other
    assert_eq!(key("").hash_value(), 0xcbf2_9ce4_8422_2325);
    assert_eq!(key("a").hash_value(), 0xaf63_dc4c_8601_ec8c);
    assert_eq!(key("foobar").hash_value(), 0x8594_4171_f739_67e8);
    assert_eq!(key("a").hash_value(), ListItemKey::String("a".to_string()).hash_value());
    assert_ne!(key("ab").hash_value(), key("ba").hash_value());
    assert_eq!(ListItemKey::U64(7).hash_value(), 7);
    assert_eq!(ListItemKey::U32(7).hash_value(), 7);
    assert_eq!(ListItemKey::USize(7).hash_value(), 7);
    assert_eq!(ListItemKey::I32(7).hash_value(), 7);
    assert_eq!(ListItemKey::I64(0).hash_value(), 0);
    assert_eq!(ListItemKey::I64(-1).hash_value(), u64::MAX);
    assert_eq!(ListItemKey::I32(-2).hash_value(), u64::MAX - 1);
    assert_eq!(ListItemKey::ISize(-3).hash_value(), u64::MAX - 2);
    assert_eq!(ListItemKey::I64(i64::MIN).hash_value(), 1u64 << 63);
    assert_eq!(ListItemKey::Uuid(5).hash_value(), 5);
    assert_eq!(ListItemKey::Uuid((3u128 << 64) | 5).hash_value(), 6);
    assert_eq!(ListItemKey::Uuid(u128::MAX).hash_value(), 0);
}

#[test]
fn many_items_are_reordered() {
    let names: Vec<String> = (0..200).map(|i| i.to_string()).collect();
    let forward: Vec<&str> = names.iter().map(|n| n.as_str()).collect();
    let (mut list, mut doc, mut children) = rendered(&forward);
    // every third item goes, the rest is turned round, and a few are new
    let mut next: Vec<ListItemKey> = forward
        .iter()
        .enumerate()
        .filter(|(i, _)| i % 3 != 0)
        .map(|(_, n)| key(n))
        .rev()
        .collect();
    next.insert(10, key("new-1"));
    next.push(key("new-2"));
    let statuses = list.reconcile(&next, None, "li", PARENT, None, true, &mut doc);
    let ops = doc.take_ops();
    assert_eq!(creations(&ops), 2);
    assert_eq!(removals(&ops).len(), 67);
    assert_eq!(statuses.iter().filter(|s| **s == ElementStatus::JustCreated).count(), 2);
    replay(&mut children, &ops);
    assert_eq!(children, elements(&list));
    assert_eq!(names_of(&list), next);
    // rendered again, nothing happens
    list.reconcile(&next, None, "li", PARENT, None, true, &mut doc);
    assert_eq!(doc.pending(), 0);
}

#[test]
fn a_pass_without_copies_makes_new_items_from_nothing() {
    let mut doc = Document::new();
    assert_eq!(doc.new_node(), PARENT);
    let mut list: KeyedList<u32, u32> = KeyedList::new();
    assert!(list.require_init_template(None, "li", &mut doc));
    {
        let (template, _, _, _) = list.items_mut();
        let template = template.as_mut().expect("the template was made");
        template.element.nodes.update_text(0, "label", 1, None, &mut doc);
        template.element.nodes.store_component_handle(spair::dom::nodes::AnyComponentHandle(1));
        template.rendered = true;
    }
    doc.take_ops();
    // the template cannot be copied, and a pass that asks for no copy does
    // not mind
    assert!(!list.can_reconcile(1, true, &doc));
    assert!(list.can_reconcile(1, false, &doc));
    let statuses = list.reconcile(&keys(&["a", "b"]), None, "li", PARENT, None, false, &mut doc);
    assert_eq!(statuses, vec![ElementStatus::JustCreated, ElementStatus::JustCreated]);
    assert_eq!(
        doc.take_ops(),
        vec![
            DomOp::CreateElement { node: 3, namespace: None, tag: "li".to_string() },
            DomOp::InsertBefore { parent: 0, child: 3, next_sibling: None },
            DomOp::CreateElement { node: 4, namespace: None, tag: "li".to_string() },
            DomOp::InsertBefore { parent: 0, child: 4, next_sibling: None },
        ]
    );
    list.pre_update(3);
    list.index_old_elements();
    assert_eq!(
        list.place_item(0, key("c"), None, "li", PARENT, None, false, &mut doc),
        ElementStatus::JustCreated
    );
    assert_eq!(
        list.place_item(1, key("a"), None, "li", PARENT, None, false, &mut doc),
        ElementStatus::Existing
    );
}
