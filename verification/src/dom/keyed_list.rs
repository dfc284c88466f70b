//! Keyed lists: an ordered collection of elements whose items carry an
//! identity, so that an item is found again when the order changes.

use crate::dom::copy::node_copy_ops;
use crate::dom::copy::node_copy_size;
use crate::dom::copy::node_copyable;
use crate::dom::copy::node_is_copy;
use crate::dom::document::Document;
use crate::dom::document::DomOpView;
use crate::dom::element::Element;
use crate::dom::element::ElementStatus;
use crate::dom::element::str_view;
use crate::dom::nodes::Node;
use crate::dom::nodes::is_new_element;
use crate::dom::nodes::keyed_append_ops;
use crate::dom::nodes::keyed_clear_ops;
use crate::dom::old_elements::OldElementsMap;
use crate::dom::old_elements::lemma_indexes_without;
use vstd::prelude::*;

verus! {

/// The identifier type of the `uuid` crate. Nothing is known of a value of
/// it but what [`uuid_bits`] names.
#[verifier::external_type_specification]
#[verifier::external_body]
pub struct ExUuid(uuid::Uuid);

/// The 128 bits that an identifier holds, as `uuid::Uuid::as_u128` reads
/// them: the sixteen bytes of the identifier, the first byte highest.
pub uninterp spec fn uuid_bits(id: uuid::Uuid) -> u128;

/// Calls `uuid::Uuid::as_u128`, which reads the sixteen bytes that the
/// identifier is made of as one number, and depends on nothing else. The
/// contract gives that number its name and claims nothing of its value.
#[verifier::external_body]
fn uuid_as_u128(id: &uuid::Uuid) -> (bits: u128)
    ensures
        bits == uuid_bits(*id),
{
    id.as_u128()
}

/// The identity of a list item.
#[derive(Debug, PartialEq, Eq, Hash)]
pub enum ListItemKey {
    String(String),
    ISize(isize),
    USize(usize),
    I64(i64),
    U64(u64),
    I32(i32),
    U32(u32),
    /// The 128 bits of a universally unique identifier.
    Uuid(u128),
}

/// The mathematical value of a [`ListItemKey`].
pub enum KeyView {
    String(Seq<char>),
    ISize(isize),
    USize(usize),
    I64(i64),
    U64(u64),
    I32(i32),
    U32(u32),
    Uuid(u128),
}

impl View for ListItemKey {
    type V = KeyView;

    open spec fn view(&self) -> KeyView {
        match *self {
            ListItemKey::String(s) => KeyView::String(s@),
            ListItemKey::ISize(v) => KeyView::ISize(v),
            ListItemKey::USize(v) => KeyView::USize(v),
            ListItemKey::I64(v) => KeyView::I64(v),
            ListItemKey::U64(v) => KeyView::U64(v),
            ListItemKey::I32(v) => KeyView::I32(v),
            ListItemKey::U32(v) => KeyView::U32(v),
            ListItemKey::Uuid(v) => KeyView::Uuid(v),
        }
    }
}

impl ListItemKey {
    /// The key of an item that is named by a string.
    pub fn from_str(value: &str) -> (key: ListItemKey)
        ensures
            key@ == KeyView::String(value@),
    {
        ListItemKey::String(value.to_owned())
    }

    /// The key of an item that is named by an identifier.
    pub fn from_uuid(id: &uuid::Uuid) -> (key: ListItemKey)
        ensures
            key@ == KeyView::Uuid(uuid_bits(*id)),
    {
        ListItemKey::Uuid(uuid_as_u128(id))
    }

    /// Whether both keys name the same item: they are of one kind and hold
    /// the same value.
    pub fn same(&self, other: &ListItemKey) -> (same: bool)
        ensures
            same == (self@ == other@),
    {
        match (self, other) {
            (ListItemKey::String(a), ListItemKey::String(b)) => *a == *b,
            (ListItemKey::ISize(a), ListItemKey::ISize(b)) => *a == *b,
            (ListItemKey::USize(a), ListItemKey::USize(b)) => *a == *b,
            (ListItemKey::I64(a), ListItemKey::I64(b)) => *a == *b,
            (ListItemKey::U64(a), ListItemKey::U64(b)) => *a == *b,
            (ListItemKey::I32(a), ListItemKey::I32(b)) => *a == *b,
            (ListItemKey::U32(a), ListItemKey::U32(b)) => *a == *b,
            (ListItemKey::Uuid(a), ListItemKey::Uuid(b)) => *a == *b,
            _ => false,
        }
    }
}

impl Clone for ListItemKey {
    /// A key that names the same item.
    fn clone(&self) -> (copy: ListItemKey)
        ensures
            copy@ == self@,
    {
        match self {
            ListItemKey::String(a) => ListItemKey::String(a.clone()),
            ListItemKey::ISize(a) => ListItemKey::ISize(*a),
            ListItemKey::USize(a) => ListItemKey::USize(*a),
            ListItemKey::I64(a) => ListItemKey::I64(*a),
            ListItemKey::U64(a) => ListItemKey::U64(*a),
            ListItemKey::I32(a) => ListItemKey::I32(*a),
            ListItemKey::U32(a) => ListItemKey::U32(*a),
            ListItemKey::Uuid(a) => ListItemKey::Uuid(*a),
        }
    }
}

/// An element of a keyed list, with the key it was rendered for.
pub struct KeyedElement<L, H> {
    pub key: ListItemKey,
    pub element: Element<L, H>,
}

/// An element of the pass before, with the place it had there.
pub struct OldElement<L, H> {
    pub index: usize,
    pub element: Element<L, H>,
}

/// The element that new items of a list are copied from.
pub struct ListItemTemplate<L, H> {
    pub rendered: bool,
    pub element: Element<L, H>,
}

/// The state of a keyed list between render passes.
///
/// The places are kept twice. During a pass `active` is filled place by
/// place, while `buffer` holds the items of the pass before: they are looked
/// up by key, and taken out as they are found again, so that no item is
/// found twice.
pub struct KeyedList<L, H> {
    /// The items of the last pass, in their order; during a pass, the items
    /// rendered so far.
    pub active: Vec<Option<KeyedElement<L, H>>>,
    /// During a pass, the items of the pass before that still wait to be
    /// found again, each at the place it had. Between passes, empty places.
    pub buffer: Vec<Option<KeyedElement<L, H>>>,
    /// The element that new items are copied from once it is rendered.
    pub template: Option<ListItemTemplate<L, H>>,
    /// During a pass, the table in which the items that wait are looked up.
    pub old_elements_map: OldElementsMap,
}

/// Whether the place `at` of `items` is filled with an item of the key.
pub open spec fn holds_key<L, H>(
    items: Seq<Option<KeyedElement<L, H>>>,
    at: int,
    key: KeyView,
) -> bool {
    0 <= at < items.len() && items[at] is Some && items[at]->Some_0.key@ == key
}

/// The first place of `items`, from `from` on, that is filled with an item
/// of the key.
pub open spec fn first_holding<L, H>(
    items: Seq<Option<KeyedElement<L, H>>>,
    key: KeyView,
    from: int,
) -> Option<int>
    decreases items.len() - from,
{
    if from < 0 || from >= items.len() {
        None
    } else if holds_key(items, from, key) {
        Some(from)
    } else {
        first_holding(items, key, from + 1)
    }
}

/// The first place of `items`, from `from` on, that is filled; their number
/// if none is.
pub open spec fn first_filled<L, H>(items: Seq<Option<KeyedElement<L, H>>>, from: int) -> int
    decreases items.len() - from,
{
    if from < 0 || from >= items.len() {
        items.len() as int
    } else if items[from] is Some {
        from
    } else {
        first_filled(items, from + 1)
    }
}

/// The node before which the next item of a pass is put: the element of the
/// first old item that is still waiting, or what follows the list.
pub open spec fn anchor<L, H>(
    waiting: Seq<Option<KeyedElement<L, H>>>,
    next_sibling: Option<u64>,
) -> Option<u64> {
    let at = first_filled(waiting, 0);
    if at < waiting.len() {
        Some(waiting[at]->Some_0.element.ws_element)
    } else {
        next_sibling
    }
}

/// The old items that still wait after the first `count` of `keys` were
/// rendered: each key has taken the first waiting item of that key.
pub open spec fn remaining<L, H>(
    old_items: Seq<Option<KeyedElement<L, H>>>,
    keys: Seq<KeyView>,
    count: nat,
) -> Seq<Option<KeyedElement<L, H>>>
    decreases count,
{
    if count == 0 || count > keys.len() {
        old_items
    } else {
        let before = remaining(old_items, keys, (count - 1) as nat);
        match first_holding(before, keys[count - 1], 0) {
            Some(at) => before.update(at, None),
            None => before,
        }
    }
}

/// The element that new items are copied from: that of the template, where
/// the render pass asks for copies and the template has been rendered.
/// Without it new items are made from nothing.
pub open spec fn pattern<L, H>(
    template: Option<ListItemTemplate<L, H>>,
    use_template: bool,
) -> Option<Element<L, H>> {
    match template {
        Some(t) => if use_template && t.rendered {
            Some(t.element)
        } else {
            None
        },
        None => None,
    }
}

/// Whether a render pass can make `count` new items for a list with this
/// template: new items can be copied from the template, if the pass asks
/// for copies;
/// one new item is made of no more display nodes than there are numbers;
/// and the display has numbers left for all of them.
pub open spec fn can_place<L, H>(
    template: Option<ListItemTemplate<L, H>>,
    use_template: bool,
    count: nat,
    doc: Document,
) -> bool {
    &&& pattern(template, use_template) matches Some(e) ==> node_copyable(Node::Element(e))
    &&& item_size(pattern(template, use_template)) <= u64::MAX
    &&& doc.has_room(count * item_size(pattern(template, use_template)))
}

/// The number of display nodes that a new item is made of.
pub open spec fn item_size<L, H>(pattern: Option<Element<L, H>>) -> nat {
    match pattern {
        Some(e) => node_copy_size(Node::Element(e)),
        None => 1,
    }
}

/// The status that a new item is rendered with.
pub open spec fn item_status<L, H>(pattern: Option<Element<L, H>>) -> ElementStatus {
    match pattern {
        Some(_) => ElementStatus::JustCloned,
        None => ElementStatus::JustCreated,
    }
}

/// Whether `element` is a new item numbered from `id` on: a copy of the
/// pattern, or without one an empty element made for `tag`.
pub open spec fn is_new_item<L, H>(
    element: Element<L, H>,
    pattern: Option<Element<L, H>>,
    tag: Seq<char>,
    id: nat,
) -> bool {
    match pattern {
        Some(e) => node_is_copy(Node::Element(element), Node::Element(e), id),
        None => is_new_element(Node::Element(element), id, tag),
    }
}

/// The operations that make a new item numbered from `id` on.
pub open spec fn item_ops<L, H>(
    pattern: Option<Element<L, H>>,
    ns: Option<Seq<char>>,
    tag: Seq<char>,
    id: nat,
) -> Seq<DomOpView> {
    match pattern {
        Some(e) => node_copy_ops(Node::Element(e), id),
        None => seq![DomOpView::CreateElement { node: id as u64, namespace: ns, tag }],
    }
}

/// What a render pass needs to know of a list besides its items.
pub struct Placement<L, H> {
    /// The element that new items are copied from, if any.
    pub pattern: Option<Element<L, H>>,
    /// The namespace and the tag that new items are made for without one.
    pub ns: Option<Seq<char>>,
    pub tag: Seq<char>,
    /// The node that the items are under, and the one that follows them.
    pub parent: u64,
    pub next_sibling: Option<u64>,
}

/// The operations that render one item of the key while `waiting` are the
/// old items not taken yet. An old item of the key is taken, and moved
/// unless it is the first that waits; without one a new item is made,
/// numbered from `id` on, and put before the first that waits.
pub open spec fn step_ops<L, H>(
    waiting: Seq<Option<KeyedElement<L, H>>>,
    key: KeyView,
    place: Placement<L, H>,
    id: nat,
) -> Seq<DomOpView> {
    match first_holding(waiting, key, 0) {
        Some(at) => if at == first_filled(waiting, 0) {
            Seq::empty()
        } else {
            seq![
                DomOpView::InsertBefore {
                    parent: place.parent,
                    child: waiting[at]->Some_0.element.ws_element,
                    next_sibling: anchor(waiting, place.next_sibling),
                },
            ]
        },
        None => item_ops(place.pattern, place.ns, place.tag, id) + seq![
            DomOpView::InsertBefore {
                parent: place.parent,
                child: id as u64,
                next_sibling: anchor(waiting, place.next_sibling),
            },
        ],
    }
}

/// The number of display nodes that a pass makes for the first `count` of
/// `keys`: those of a new item for each key that finds no old item waiting.
pub open spec fn created_size<L, H>(
    old_items: Seq<Option<KeyedElement<L, H>>>,
    keys: Seq<KeyView>,
    count: nat,
    size: nat,
) -> nat
    decreases count,
{
    if count == 0 || count > keys.len() {
        0
    } else {
        created_size(old_items, keys, (count - 1) as nat, size) + if first_holding(
            remaining(old_items, keys, (count - 1) as nat),
            keys[count - 1],
            0,
        ) is None {
            size
        } else {
            0
        }
    }
}

/// The operations that render the first `count` of `keys`, in their order,
/// where new display nodes are numbered from `first` on.
pub open spec fn place_ops<L, H>(
    old_items: Seq<Option<KeyedElement<L, H>>>,
    keys: Seq<KeyView>,
    count: nat,
    place: Placement<L, H>,
    first: nat,
) -> Seq<DomOpView>
    decreases count,
{
    if count == 0 || count > keys.len() {
        Seq::empty()
    } else {
        place_ops(old_items, keys, (count - 1) as nat, place, first) + step_ops(
            remaining(old_items, keys, (count - 1) as nat),
            keys[count - 1],
            place,
            first + created_size(
                old_items,
                keys,
                (count - 1) as nat,
                item_size(place.pattern),
            ),
        )
    }
}

/// Whether `slot` holds the item rendered for the key with `status` while
/// `waiting` were the old items not taken yet: the element of the first of
/// them with that key, found again; or without one a new item numbered from
/// `id` on.
pub open spec fn placed_as<L, H>(
    slot: Option<KeyedElement<L, H>>,
    status: ElementStatus,
    key: KeyView,
    waiting: Seq<Option<KeyedElement<L, H>>>,
    place: Placement<L, H>,
    id: nat,
) -> bool {
    &&& slot matches Some(item)
    &&& item.key@ == key
    &&& match first_holding(waiting, key, 0) {
        Some(at) => status == ElementStatus::Existing && item.element
            == waiting[at]->Some_0.element,
        None => status == item_status(place.pattern) && is_new_item(
            item.element,
            place.pattern,
            place.tag,
            id,
        ),
    }
}

/// The views of a sequence of keys.
pub open spec fn keys_view(keys: Seq<ListItemKey>) -> Seq<KeyView> {
    keys.map_values(|k: ListItemKey| k@)
}

/// The keys of items that are all there, in their order.
pub open spec fn keys_of<L, H>(items: Seq<Option<KeyedElement<L, H>>>) -> Seq<KeyView> {
    Seq::new(items.len(), |i: int| items[i]->Some_0.key@)
}

/// Whether every place is filled.
pub open spec fn all_filled<L, H>(items: Seq<Option<KeyedElement<L, H>>>) -> bool {
    forall|i: int| 0 <= i < items.len() ==> (#[trigger] items[i]) is Some
}

/// Where the places from `from` up to `at` are empty and `at` is filled or
/// past the end, `at` is the first filled place from `from` on.
pub proof fn lemma_first_filled<L, H>(items: Seq<Option<KeyedElement<L, H>>>, from: int, at: int)
    requires
        0 <= from <= at <= items.len(),
        forall|k: int| from <= k < at ==> items[k] is None,
        at < items.len() ==> items[at] is Some,
    ensures
        first_filled(items, from) == at,
    decreases at - from,
{
    if from < at {
        lemma_first_filled(items, from + 1, at);
    }
}

/// Where no place from `from` up to `at` holds the key and `at` does, `at`
/// is the first place from `from` on that holds it.
pub proof fn lemma_first_holding<L, H>(
    items: Seq<Option<KeyedElement<L, H>>>,
    key: KeyView,
    from: int,
    at: int,
)
    requires
        0 <= from <= at < items.len(),
        forall|k: int| from <= k < at ==> !holds_key(items, k, key),
        holds_key(items, at, key),
    ensures
        first_holding(items, key, from) == Some(at),
    decreases at - from,
{
    if from < at {
        lemma_first_holding(items, key, from + 1, at);
    }
}

/// Where no place from `from` on holds the key, none is the first.
pub proof fn lemma_none_holding<L, H>(
    items: Seq<Option<KeyedElement<L, H>>>,
    key: KeyView,
    from: int,
)
    requires
        0 <= from <= items.len(),
        forall|k: int| from <= k < items.len() ==> !holds_key(items, k, key),
    ensures
        first_holding(items, key, from) is None,
    decreases items.len() - from,
{
    if from < items.len() {
        lemma_none_holding(items, key, from + 1);
    }
}

/// The first place that holds a key is a place that holds it, and none
/// before it does.
pub proof fn lemma_first_holding_holds<L, H>(
    items: Seq<Option<KeyedElement<L, H>>>,
    key: KeyView,
    from: int,
)
    requires
        0 <= from,
    ensures
        match first_holding(items, key, from) {
            Some(at) => from <= at && holds_key(items, at, key) && forall|k: int|
                from <= k < at ==> !holds_key(items, k, key),
            None => forall|k: int| from <= k < items.len() ==> !holds_key(items, k, key),
        },
    decreases items.len() - from,
{
    if from < items.len() && !holds_key(items, from, key) {
        lemma_first_holding_holds(items, key, from + 1);
    }
}

/// As many old places wait, filled or not, as there were old places.
pub proof fn lemma_remaining_len<L, H>(
    old_items: Seq<Option<KeyedElement<L, H>>>,
    keys: Seq<KeyView>,
    count: nat,
)
    ensures
        remaining(old_items, keys, count).len() == old_items.len(),
    decreases count,
{
    if !(count == 0 || count > keys.len()) {
        lemma_remaining_len(old_items, keys, (count - 1) as nat);
        lemma_first_holding_holds(
            remaining(old_items, keys, (count - 1) as nat),
            keys[count - 1],
            0,
        );
    }
}

/// A pass makes no fewer display nodes for more keys.
pub proof fn lemma_created_size_grows<L, H>(
    old_items: Seq<Option<KeyedElement<L, H>>>,
    keys: Seq<KeyView>,
    fewer: nat,
    more: nat,
    size: nat,
)
    requires
        fewer <= more <= keys.len(),
    ensures
        created_size(old_items, keys, fewer, size) <= created_size(old_items, keys, more, size),
    decreases more,
{
    if fewer < more {
        lemma_created_size_grows(old_items, keys, fewer, (more - 1) as nat, size);
    }
}

/// A pass makes at most one new item for each key.
pub proof fn lemma_created_size_bound<L, H>(
    old_items: Seq<Option<KeyedElement<L, H>>>,
    keys: Seq<KeyView>,
    count: nat,
    size: nat,
)
    ensures
        created_size(old_items, keys, count, size) <= count * size,
    decreases count,
{
    if !(count == 0 || count > keys.len()) {
        lemma_created_size_bound(old_items, keys, (count - 1) as nat, size);
        assert((count - 1) * size + size == count * size) by (nonlinear_arith);
    } else {
        assert(0 <= count * size) by (nonlinear_arith);
    }
}

/// Taking away items of which none is there takes nothing away.
pub proof fn lemma_no_items_no_clear_ops<L, H>(
    items: Seq<Option<KeyedElement<L, H>>>,
    count: nat,
    parent: u64,
)
    requires
        count <= items.len(),
        forall|i: int| 0 <= i < count ==> (#[trigger] items[i]) is None,
    ensures
        keyed_clear_ops(items, count, parent) == Seq::<DomOpView>::empty(),
    decreases count,
{
    if count > 0 {
        lemma_no_items_no_clear_ops(items, (count - 1) as nat, parent);
        assert(keyed_clear_ops(items, count, parent) =~= Seq::<DomOpView>::empty());
    }
}

/// The old items that wait after the first `count` of the same keys were
/// rendered are those from `count` on.
pub proof fn lemma_same_keys_remaining<L, H>(
    old_items: Seq<Option<KeyedElement<L, H>>>,
    count: nat,
)
    requires
        all_filled(old_items),
        count <= old_items.len(),
    ensures
        remaining(old_items, keys_of(old_items), count).len() == old_items.len(),
        forall|j: int|
            0 <= j < old_items.len() ==> #[trigger] remaining(
                old_items,
                keys_of(old_items),
                count,
            )[j] == if j < count {
                None
            } else {
                old_items[j]
            },
        count < old_items.len() ==> first_holding(
            remaining(old_items, keys_of(old_items), count),
            keys_of(old_items)[count as int],
            0,
        ) == Some(count as int) && first_filled(
            remaining(old_items, keys_of(old_items), count),
            0,
        ) == count,
    decreases count,
{
    let keys = keys_of(old_items);
    if count > 0 {
        lemma_same_keys_remaining(old_items, (count - 1) as nat);
        let before = remaining(old_items, keys, (count - 1) as nat);
        assert(first_holding(before, keys[count - 1], 0) == Some(count - 1));
        assert(remaining(old_items, keys, count) == before.update(count - 1, None));
    }
    let now = remaining(old_items, keys, count);
    if count < old_items.len() {
        assert(old_items[count as int] is Some);
        assert(holds_key(now, count as int, keys[count as int]));
        lemma_first_holding(now, keys[count as int], 0, count as int);
        lemma_first_filled(now, 0, count as int);
    }
}

/// Rendering the same keys again, in the same order, moves nothing, makes
/// nothing and takes nothing away: every item keeps its element at its
/// place.
pub proof fn lemma_same_keys_no_ops<L, H>(
    old_items: Seq<Option<KeyedElement<L, H>>>,
    count: nat,
    place: Placement<L, H>,
    first: nat,
)
    requires
        all_filled(old_items),
        count <= old_items.len(),
    ensures
        created_size(old_items, keys_of(old_items), count, item_size(place.pattern)) == 0,
        place_ops(old_items, keys_of(old_items), count, place, first) == Seq::<DomOpView>::empty(),
        forall|i: int|
            0 <= i < count ==> first_holding(
                #[trigger] remaining(old_items, keys_of(old_items), i as nat),
                keys_of(old_items)[i],
                0,
            ) == Some(i),
        count == old_items.len() ==> keyed_clear_ops(
            remaining(old_items, keys_of(old_items), count),
            count,
            place.parent,
        ) == Seq::<DomOpView>::empty(),
    decreases count,
{
    let keys = keys_of(old_items);
    if count > 0 {
        lemma_same_keys_no_ops(old_items, (count - 1) as nat, place, first);
        lemma_same_keys_remaining(old_items, (count - 1) as nat);
        assert(place_ops(old_items, keys, count, place, first) =~= Seq::<DomOpView>::empty());
    }
    if count == old_items.len() {
        lemma_same_keys_remaining(old_items, count);
        lemma_no_items_no_clear_ops(
            remaining(old_items, keys, count),
            count,
            place.parent,
        );
    }
}

/// `count` empty places.
pub fn empty_places<L, H>(count: usize) -> (places: Vec<Option<KeyedElement<L, H>>>)
    ensures
        places@.len() == count,
        forall|i: int| 0 <= i < count ==> places@[i] is None,
{
    let mut places: Vec<Option<KeyedElement<L, H>>> = Vec::new();
    let mut i: usize = 0;
    while i < count
        invariant
            i <= count,
            places@.len() == i,
            forall|k: int| 0 <= k < i ==> places@[k] is None,
        decreases count - i,
    {
        places.push(None);
        i += 1;
    }
    places
}

impl<L, H> KeyedElement<L, H> {
    /// An element with the key it was rendered for.
    pub fn new(key: ListItemKey, element: Element<L, H>) -> (item: KeyedElement<L, H>)
        ensures
            item.key == key,
            item.element == element,
    {
        KeyedElement { key, element }
    }
}

impl<L, H> KeyedList<L, H> {
    /// A list without items and without a template.
    pub fn new() -> (list: KeyedList<L, H>)
        ensures
            list.active@.len() == 0,
            list.buffer@.len() == 0,
            list.template is None,
            list.indexed(),
    {
        KeyedList {
            active: Vec::new(),
            buffer: Vec::new(),
            template: None,
            old_elements_map: OldElementsMap::new(),
        }
    }

    /// Whether the lookup table is the table of the items that wait.
    pub open spec fn indexed(&self) -> bool {
        self.old_elements_map.indexes(self.buffer@)
    }

    /// The items of the last render pass, in their order.
    pub fn active_nodes(&self) -> (items: &Vec<Option<KeyedElement<L, H>>>)
        ensures
            *items == self.active,
    {
        &self.active
    }

    /// The element of the first item, if the list has a first place and it
    /// is filled.
    pub fn get_first_element(&self) -> (first: Option<&Element<L, H>>)
        ensures
            match first {
                Some(e) => self.active@.len() > 0 && self.active@[0] is Some
                    && self.active@[0]->Some_0.element == *e,
                None => self.active@.len() == 0 || self.active@[0] is None,
            },
    {
        if self.active.len() == 0 {
            None
        } else {
            match &self.active[0] {
                Some(item) => Some(&item.element),
                None => None,
            }
        }
    }

    /// The element of the last item, if the list has a last place and it is
    /// filled.
    pub fn get_last_element(&self) -> (last: Option<&Element<L, H>>)
        ensures
            match last {
                Some(e) => self.active@.len() > 0 && self.active@[self.active@.len() - 1] is Some
                    && self.active@[self.active@.len() - 1]->Some_0.element == *e,
                None => self.active@.len() == 0 || self.active@[self.active@.len() - 1] is None,
            },
    {
        if self.active.len() == 0 {
            None
        } else {
            match &self.active[self.active.len() - 1] {
                Some(item) => Some(&item.element),
                None => None,
            }
        }
    }

    /// Whether the template of new items has to be rendered before it is
    /// copied. A list that has no template gets one, made for `tag` and not
    /// rendered.
    pub fn require_init_template(
        &mut self,
        ns: Option<&str>,
        tag: &str,
        doc: &mut Document,
    ) -> (init: bool)
        requires
            old(self).template is None ==> old(doc).has_room(1),
        ensures
            final(self).active == old(self).active,
            final(self).buffer == old(self).buffer,
            match old(self).template {
                Some(t) => init == !t.rendered && final(self).template == old(self).template
                    && *final(doc) == *old(doc),
                None => {
                    &&& init
                    &&& final(self).template matches Some(t)
                    &&& !t.rendered
                    &&& is_new_element(Node::Element(t.element), old(doc)@.next_node, tag@)
                    &&& final(doc).created(
                        *old(doc),
                        1,
                        seq![
                            DomOpView::CreateElement {
                                node: old(doc)@.next_node as u64,
                                namespace: str_view(ns),
                                tag: tag@,
                            },
                        ],
                    )
                },
            },
    {
        match &self.template {
            None => {
                self.template = Some(
                    ListItemTemplate { rendered: false, element: Element::new_ns(ns, tag, doc) },
                );
                true
            },
            Some(t) => !t.rendered,
        }
    }

    /// The parts of the list, each to work on by itself: the template, the
    /// places of the pass before, the places of this pass, and the lookup
    /// table.
    pub fn items_mut(&mut self) -> (parts: (
        &mut Option<ListItemTemplate<L, H>>,
        &mut Vec<Option<KeyedElement<L, H>>>,
        &mut Vec<Option<KeyedElement<L, H>>>,
        &mut OldElementsMap,
    ))
        ensures
            *parts.0 == old(self).template,
            *parts.1 == old(self).buffer,
            *parts.2 == old(self).active,
            *parts.3 == old(self).old_elements_map,
            final(self).template == *final(parts.0),
            final(self).buffer == *final(parts.1),
            final(self).active == *final(parts.2),
            final(self).old_elements_map == *final(parts.3),
    {
        (&mut self.template, &mut self.buffer, &mut self.active, &mut self.old_elements_map)
    }

    /// Starts a render pass of `count` items: the items of the pass before
    /// wait to be found again, and `count` empty places wait to be filled.
    pub fn pre_update(&mut self, count: usize)
        ensures
            final(self).buffer == old(self).active,
            final(self).active@.len() == count,
            forall|i: int| 0 <= i < count ==> final(self).active@[i] is None,
            final(self).template == old(self).template,
    {
        self.buffer = empty_places(count);
        core::mem::swap(&mut self.active, &mut self.buffer);
    }

    /// Makes the lookup table of the items that wait.
    pub fn index_old_elements(&mut self)
        ensures
            final(self).indexed(),
            final(self).active == old(self).active,
            final(self).buffer == old(self).buffer,
            final(self).template == old(self).template,
    {
        self.old_elements_map = OldElementsMap::build(&self.buffer);
    }

    /// The place of the first old item that still waits; the number of old
    /// places if none does.
    pub fn first_waiting(&mut self) -> (first: usize)
        requires
            old(self).indexed(),
        ensures
            final(self).indexed(),
            final(self).active == old(self).active,
            final(self).buffer == old(self).buffer,
            final(self).template == old(self).template,
            first == first_filled(old(self).buffer@, 0),
            first <= old(self).buffer@.len(),
            first < old(self).buffer@.len() ==> old(self).buffer@[first as int] is Some,
    {
        self.old_elements_map.first_waiting(&self.buffer)
    }

    /// Looks the key up among the old items that still wait, and takes the
    /// first item of that key out: its element, and the place it had in the
    /// pass before.
    pub fn take_old_element(&mut self, key: &ListItemKey) -> (found: Option<OldElement<L, H>>)
        requires
            old(self).indexed(),
        ensures
            final(self).indexed(),
            final(self).active == old(self).active,
            final(self).template == old(self).template,
            match first_holding(old(self).buffer@, key@, 0) {
                Some(at) => {
                    &&& found == Some(
                        OldElement {
                            index: at as usize,
                            element: old(self).buffer@[at]->Some_0.element,
                        },
                    )
                    &&& 0 <= at < old(self).buffer@.len()
                    &&& old(self).buffer@[at] is Some
                    &&& final(self).buffer@ == old(self).buffer@.update(at, None)
                },
                None => found is None && final(self).buffer@ == old(self).buffer@,
            },
    {
        match self.old_elements_map.find(&self.buffer, key) {
            Some(at) => {
                proof {
                    lemma_first_holding_holds(self.buffer@, key@, 0);
                    lemma_indexes_without(self.old_elements_map, self.buffer@, at as int);
                }
                let mut slot: Option<KeyedElement<L, H>> = None;
                core::mem::swap(&mut slot, &mut self.buffer[at]);
                match slot {
                    Some(item) => Some(OldElement { index: at, element: item.element }),
                    None => None,
                }
            },
            None => None,
        }
    }

    /// Renders the item of the key at the place `index` of a pass. The
    /// first old item of that key that still waits is found again: its
    /// element is moved before the first that waits, unless it is that one.
    /// Where none waits, a new item is made and put there: as a copy of the
    /// template if the pass asks for copies and the template was rendered,
    /// else from nothing.
    pub fn place_item(
        &mut self,
        index: usize,
        key: ListItemKey,
        ns: Option<&str>,
        tag: &str,
        parent: u64,
        next_sibling: Option<u64>,
        use_template: bool,
        doc: &mut Document,
    ) -> (status: ElementStatus)
        requires
            old(self).indexed(),
            index < old(self).active@.len(),
            first_holding(old(self).buffer@, key@, 0) is None ==> {
                &&& old(doc).has_room(item_size(pattern(old(self).template, use_template)))
                &&& pattern(old(self).template, use_template) matches Some(e)
                    ==> node_copyable(Node::Element(e))
            },
        ensures
            final(self).indexed(),
            final(self).template == old(self).template,
            final(self).active@.len() == old(self).active@.len(),
            forall|i: int|
                0 <= i < old(self).active@.len() && i != index ==> final(self).active@[i] == old(
                    self,
                ).active@[i],
            final(self).active@[index as int] matches Some(item) && item.key == key,
            placed_as(
                final(self).active@[index as int],
                status,
                key@,
                old(self).buffer@,
                Placement {
                    pattern: pattern(old(self).template, use_template),
                    ns: str_view(ns),
                    tag: tag@,
                    parent,
                    next_sibling,
                },
                old(doc)@.next_node,
            ),
            final(self).buffer@ == match first_holding(old(self).buffer@, key@, 0) {
                Some(at) => old(self).buffer@.update(at, None),
                None => old(self).buffer@,
            },
            final(doc).created(
                *old(doc),
                if first_holding(old(self).buffer@, key@, 0) is None {
                    item_size(pattern(old(self).template, use_template))
                } else {
                    0
                },
                step_ops(
                    old(self).buffer@,
                    key@,
                    Placement {
                        pattern: pattern(old(self).template, use_template),
                        ns: str_view(ns),
                        tag: tag@,
                        parent,
                        next_sibling,
                    },
                    old(doc)@.next_node,
                ),
            ),
    {
        let first = self.first_waiting();
        let before: Option<u64> = if first < self.buffer.len() {
            match &self.buffer[first] {
                Some(item) => Some(item.element.ws_element),
                None => next_sibling,
            }
        } else {
            next_sibling
        };
        assert(before == anchor(old(self).buffer@, next_sibling));
        match self.take_old_element(&key) {
            Some(found) => {
                if found.index != first {
                    doc.insert_before(parent, found.element.ws_element, before);
                } else {
                    assert(doc@.ops + Seq::<DomOpView>::empty() =~= doc@.ops);
                }
                self.active[index] = Some(KeyedElement { key, element: found.element });
                ElementStatus::Existing
            },
            None => {
                let cloned: bool = match &self.template {
                    Some(t) => use_template && t.rendered,
                    None => false,
                };
                let element = if cloned {
                    match &self.template {
                        Some(t) => t.element.clone_with(doc),
                        None => vstd::pervasive::unreached(),
                    }
                } else {
                    Element::new_ns(ns, tag, doc)
                };
                doc.insert_before(parent, element.ws_element, before);
                proof {
                    let place = Placement {
                        pattern: pattern(old(self).template, use_template),
                        ns: str_view(ns),
                        tag: tag@,
                        parent,
                        next_sibling,
                    };
                    assert(doc@.ops =~= old(doc)@.ops + step_ops(
                        old(self).buffer@,
                        key@,
                        place,
                        old(doc)@.next_node,
                    ));
                }
                self.active[index] = Some(KeyedElement { key, element });
                if cloned {
                    ElementStatus::JustCloned
                } else {
                    ElementStatus::JustCreated
                }
            },
        }
    }

    /// Ends a render pass: the element of every old item that still waits
    /// is taken away from under `parent`, in their order, and the item is
    /// forgotten.
    pub fn remove_old_elements(&mut self, parent: u64, doc: &mut Document)
        ensures
            final(self).active == old(self).active,
            final(self).template == old(self).template,
            final(self).buffer@.len() == old(self).buffer@.len(),
            forall|i: int| 0 <= i < old(self).buffer@.len() ==> final(self).buffer@[i] is None,
            final(doc).recorded(
                *old(doc),
                keyed_clear_ops(old(self).buffer@, old(self).buffer@.len(), parent),
            ),
    {
        Self::remove_each(&self.buffer, parent, doc);
        self.buffer = empty_places(self.buffer.len());
    }

    /// Whether a pass of `count` items can be rendered, whatever its keys
    /// are: new items can be copied from the template, if the pass asks for
    /// copies, and the display has room for as many new items as there are
    /// keys.
    pub fn can_reconcile(&self, count: usize, use_template: bool, doc: &Document) -> (can: bool)
        ensures
            can == can_place(self.template, use_template, count as nat, *doc),
            can ==> forall|keys: Seq<KeyView>|
                keys.len() == count ==> doc.has_room(
                    #[trigger] created_size(
                        self.active@,
                        keys,
                        count as nat,
                        item_size(pattern(self.template, use_template)),
                    ),
                ),
    {
        let size: Option<u64> = match &self.template {
            Some(t) => if use_template && t.rendered {
                t.element.copy_size()
            } else {
                Some(1)
            },
            None => Some(1),
        };
        match size {
            None => false,
            Some(size) => {
                let room = doc.room();
                let can = size == 0 || count as u64 <= room / size;
                proof {
                    let each = item_size(pattern(self.template, use_template));
                    assert(each == size);
                    assert(each >= 1);
                    assert((count <= room / size) <==> (count * each <= room)) by (nonlinear_arith)
                        requires
                            each == size,
                            size >= 1,
                            0 <= room,
                            0 <= count,
                    ;
                    if can {
                        assert forall|keys: Seq<KeyView>| keys.len() == count implies doc.has_room(
                            #[trigger] created_size(self.active@, keys, count as nat, each),
                        ) by {
                            lemma_created_size_bound(self.active@, keys, count as nat, each);
                        }
                    }
                }
                can
            },
        }
    }

    /// Renders the items of `keys`, in their order, in place of the items
    /// of the pass before. An item whose key was there before keeps its
    /// element, wherever it was; the others are made, as copies of the
    /// template only where `use_template` asks for it. Then the elements
    /// whose keys are gone are taken away. The result tells for each item
    /// the status to render its content with.
    pub fn reconcile(
        &mut self,
        keys: &Vec<ListItemKey>,
        ns: Option<&str>,
        tag: &str,
        parent: u64,
        next_sibling: Option<u64>,
        use_template: bool,
        doc: &mut Document,
    ) -> (statuses: Vec<ElementStatus>)
        requires
            old(doc).has_room(
                created_size(
                    old(self).active@,
                    keys_view(keys@),
                    keys@.len(),
                    item_size(pattern(old(self).template, use_template)),
                ),
            ),
            pattern(old(self).template, use_template) matches Some(e) ==> node_copyable(
                Node::Element(e),
            ),
        ensures
            final(self).template == old(self).template,
            final(self).active@.len() == keys@.len(),
            statuses@.len() == keys@.len(),
            forall|i: int|
                0 <= i < keys@.len() ==> placed_as(
                    #[trigger] final(self).active@[i],
                    statuses@[i],
                    keys@[i]@,
                    remaining(old(self).active@, keys_view(keys@), i as nat),
                    Placement {
                        pattern: pattern(old(self).template, use_template),
                        ns: str_view(ns),
                        tag: tag@,
                        parent,
                        next_sibling,
                    },
                    old(doc)@.next_node + created_size(
                        old(self).active@,
                        keys_view(keys@),
                        i as nat,
                        item_size(pattern(old(self).template, use_template)),
                    ),
                ),
            final(self).buffer@.len() == old(self).active@.len(),
            forall|i: int| 0 <= i < old(self).active@.len() ==> final(self).buffer@[i] is None,
            final(doc).created(
                *old(doc),
                created_size(
                    old(self).active@,
                    keys_view(keys@),
                    keys@.len(),
                    item_size(pattern(old(self).template, use_template)),
                ),
                place_ops(
                    old(self).active@,
                    keys_view(keys@),
                    keys@.len(),
                    Placement {
                        pattern: pattern(old(self).template, use_template),
                        ns: str_view(ns),
                        tag: tag@,
                        parent,
                        next_sibling,
                    },
                    old(doc)@.next_node,
                ) + keyed_clear_ops(
                    remaining(old(self).active@, keys_view(keys@), keys@.len()),
                    old(self).active@.len(),
                    parent,
                ),
            ),
    {
        let ghost old_items = self.active@;
        let ghost kv = keys_view(keys@);
        let ghost place = Placement {
            pattern: pattern(self.template, use_template),
            ns: str_view(ns),
            tag: tag@,
            parent,
            next_sibling,
        };
        let ghost size = item_size(pattern(self.template, use_template));
        let ghost before = *doc;
        let ghost first = doc@.next_node;
        let count = keys.len();
        self.pre_update(count);
        self.index_old_elements();
        let mut statuses: Vec<ElementStatus> = Vec::new();
        let mut i: usize = 0;
        assert(doc@.ops + Seq::<DomOpView>::empty() =~= doc@.ops);
        while i < count
            invariant
                i <= count,
                count == keys@.len(),
                kv == keys_view(keys@),
                first == before@.next_node,
                size == item_size(pattern(self.template, use_template)),
                place == (Placement {
                    pattern: pattern(self.template, use_template),
                    ns: str_view(ns),
                    tag: tag@,
                    parent,
                    next_sibling,
                }),
                self.template == old(self).template,
                self.indexed(),
                place.pattern matches Some(e) ==> node_copyable(Node::Element(e)),
                before.has_room(created_size(old_items, kv, count as nat, size)),
                self.active@.len() == count,
                statuses@.len() == i,
                self.buffer@ == remaining(old_items, kv, i as nat),
                forall|k: int|
                    0 <= k < i ==> placed_as(
                        #[trigger] self.active@[k],
                        statuses@[k],
                        keys@[k]@,
                        remaining(old_items, kv, k as nat),
                        place,
                        first + created_size(old_items, kv, k as nat, size),
                    ),
                doc.created(
                    before,
                    created_size(old_items, kv, i as nat, size),
                    place_ops(old_items, kv, i as nat, place, first),
                ),
            decreases count - i,
        {
            let ghost placed = self.active@;
            proof {
                lemma_created_size_grows(old_items, kv, (i + 1) as nat, count as nat, size);
                assert(kv[i as int] == keys@[i as int]@);
            }
            let key = keys[i].clone();
            let status = self.place_item(i, key, ns, tag, parent, next_sibling, use_template, doc);
            statuses.push(status);
            proof {
                assert(doc@.ops =~= before@.ops + place_ops(
                    old_items,
                    kv,
                    (i + 1) as nat,
                    place,
                    first,
                ));
                assert forall|k: int| 0 <= k < i + 1 implies placed_as(
                    #[trigger] self.active@[k],
                    statuses@[k],
                    keys@[k]@,
                    remaining(old_items, kv, k as nat),
                    place,
                    first + created_size(old_items, kv, k as nat, size),
                ) by {
                    if k < i {
                        assert(self.active@[k] == placed[k]);
                    }
                }
            }
            i += 1;
        }
        self.remove_old_elements(parent, doc);
        proof {
            lemma_remaining_len(old_items, kv, count as nat);
            assert(doc@.ops =~= before@.ops + (place_ops(
                old_items,
                kv,
                count as nat,
                place,
                first,
            ) + keyed_clear_ops(
                remaining(old_items, kv, count as nat),
                old_items.len(),
                parent,
            )));
        }
        statuses
    }

    /// Takes the element of every one of `items` away from under `parent`,
    /// in their order.
    pub fn remove_each(items: &Vec<Option<KeyedElement<L, H>>>, parent: u64, doc: &mut Document)
        ensures
            final(doc).recorded(*old(doc), keyed_clear_ops(items@, items@.len(), parent)),
    {
        let ghost before = *doc;
        let mut i: usize = 0;
        assert(doc@.ops + Seq::<DomOpView>::empty() =~= doc@.ops);
        while i < items.len()
            invariant
                i <= items@.len(),
                doc.recorded(before, keyed_clear_ops(items@, i as nat, parent)),
            decreases items.len() - i,
        {
            match &items[i] {
                Some(item) => {
                    let ghost between = *doc;
                    item.element.remove_from(parent, doc);
                    proof {
                        doc.lemma_recorded_twice(
                            before,
                            between,
                            keyed_clear_ops(items@, i as nat, parent),
                            seq![
                                DomOpView::RemoveChild { parent, child: item.element.ws_element },
                            ],
                        );
                    }
                },
                None => {
                    assert(keyed_clear_ops(items@, i as nat, parent) + Seq::<DomOpView>::empty()
                        =~= keyed_clear_ops(items@, i as nat, parent));
                },
            }
            i += 1;
        }
    }

    /// Takes the element of every item away from under `parent`, in their
    /// order. The list keeps its items.
    pub fn remove_from(&self, parent: u64, doc: &mut Document)
        ensures
            final(doc).recorded(
                *old(doc),
                keyed_clear_ops(self.active@, self.active@.len(), parent),
            ),
    {
        Self::remove_each(&self.active, parent, doc);
    }

    /// Takes the element of every item away from under `parent`, in their
    /// order, and gives the list up.
    pub fn remove_from_dom(self, parent: u64, doc: &mut Document)
        ensures
            final(doc).recorded(
                *old(doc),
                keyed_clear_ops(self.active@, self.active@.len(), parent),
            ),
    {
        Self::remove_each(&self.active, parent, doc);
    }

    /// Puts the element of every item last under `parent`, in their order.
    pub fn append_to(&self, parent: u64, doc: &mut Document)
        ensures
            final(doc).recorded(
                *old(doc),
                keyed_append_ops(self.active@, self.active@.len(), parent),
            ),
    {
        let ghost before = *doc;
        let mut i: usize = 0;
        assert(doc@.ops + Seq::<DomOpView>::empty() =~= doc@.ops);
        while i < self.active.len()
            invariant
                i <= self.active@.len(),
                doc.recorded(before, keyed_append_ops(self.active@, i as nat, parent)),
            decreases self.active.len() - i,
        {
            match &self.active[i] {
                Some(item) => {
                    let ghost between = *doc;
                    item.element.append_to(parent, doc);
                    proof {
                        doc.lemma_recorded_twice(
                            before,
                            between,
                            keyed_append_ops(self.active@, i as nat, parent),
                            seq![
                                DomOpView::InsertBefore {
                                    parent,
                                    child: item.element.ws_element,
                                    next_sibling: None,
                                },
                            ],
                        );
                    }
                },
                None => {
                    assert(keyed_append_ops(self.active@, i as nat, parent) + Seq::<
                        DomOpView,
                    >::empty() =~= keyed_append_ops(self.active@, i as nat, parent));
                },
            }
            i += 1;
        }
    }
}

} // verus!
