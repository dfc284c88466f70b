//! The attribute cache of an element.
//!
//! A render pass writes the attributes and listeners of an element in a fixed
//! order. The cache keeps, per position, what the pass before wrote there, so
//! that a write reaches the display only when the value has changed.

use vstd::prelude::*;

verus! {

/// What was last written at one position of an element.
pub enum Attribute<L> {
    /// The listener bound there, kept for as long as the record is; none on
    /// an element that was copied from a template and has not bound its own
    /// yet.
    EventListener(Option<L>),
    String(String),
    Bool(bool),
    I32(i32),
    U32(u32),
    /// The bits of a 64-bit float.
    F64(u64),
}

/// The mathematical value of an [`Attribute`].
pub enum AttributeView<L> {
    EventListener(Option<L>),
    String(Seq<char>),
    Bool(bool),
    I32(i32),
    U32(u32),
    F64(u64),
}

impl<L> View for Attribute<L> {
    type V = AttributeView<L>;

    open spec fn view(&self) -> AttributeView<L> {
        match *self {
            Attribute::EventListener(l) => AttributeView::EventListener(l),
            Attribute::String(s) => AttributeView::String(s@),
            Attribute::Bool(v) => AttributeView::Bool(v),
            Attribute::I32(v) => AttributeView::I32(v),
            Attribute::U32(v) => AttributeView::U32(v),
            Attribute::F64(v) => AttributeView::F64(v),
        }
    }
}

/// The kinds of record.
#[derive(Clone, Copy, PartialEq, Eq, Structural, Debug)]
pub enum AttributeKind {
    EventListener,
    String,
    Bool,
    I32,
    U32,
    F64,
}

impl<L> AttributeView<L> {
    /// The kind of the record.
    pub open spec fn kind(self) -> AttributeKind {
        match self {
            AttributeView::EventListener(_) => AttributeKind::EventListener,
            AttributeView::String(_) => AttributeKind::String,
            AttributeView::Bool(_) => AttributeKind::Bool,
            AttributeView::I32(_) => AttributeKind::I32,
            AttributeView::U32(_) => AttributeKind::U32,
            AttributeView::F64(_) => AttributeKind::F64,
        }
    }

    /// The record as a copied element starts with it: a listener is not
    /// carried over, a value is.
    pub open spec fn without_listener(self) -> AttributeView<L> {
        match self {
            AttributeView::EventListener(_) => AttributeView::EventListener(None),
            other => other,
        }
    }

    /// Whether both records are of one kind.
    pub open spec fn same_kind(self, other: AttributeView<L>) -> bool {
        self.kind() == other.kind()
    }
}

/// Whether a write of `value` at `index` finds a record of another kind: the
/// render pass then differs in shape from the pass before.
pub open spec fn kind_mismatch<L>(
    cache: Seq<AttributeView<L>>,
    index: int,
    value: AttributeView<L>,
) -> bool {
    0 <= index < cache.len() && !cache[index].same_kind(value)
}

/// Whether a write of `value` at `index` has to reach the display: always at
/// a position that is new, else when the value differs from the record.
pub open spec fn needs_write<L>(
    cache: Seq<AttributeView<L>>,
    index: int,
    value: AttributeView<L>,
) -> bool {
    index >= cache.len() || cache[index] != value
}

/// The cache after a write of `value` at `index`: a new position is added at
/// the end, a position that exists holds the value.
pub open spec fn written<L>(
    cache: Seq<AttributeView<L>>,
    index: int,
    value: AttributeView<L>,
) -> Seq<AttributeView<L>> {
    if 0 <= index < cache.len() {
        cache.update(index, value)
    } else {
        cache.push(value)
    }
}

/// The cache after a render pass has written the first `count` of `values`,
/// each at its own position, in their order.
pub open spec fn rendered<L>(
    cache: Seq<AttributeView<L>>,
    values: Seq<AttributeView<L>>,
    count: nat,
) -> Seq<AttributeView<L>>
    decreases count,
{
    if count == 0 || count > values.len() {
        cache
    } else {
        written(rendered(cache, values, (count - 1) as nat), count - 1, values[count - 1])
    }
}

/// Whether a render pass that writes `values`, each at its own position,
/// writes the display for the value at `index`.
pub open spec fn pass_writes<L>(
    cache: Seq<AttributeView<L>>,
    values: Seq<AttributeView<L>>,
    index: nat,
) -> bool {
    needs_write(rendered(cache, values, index), index as int, values[index as int])
}

/// After a render pass the cache holds the values of the pass at their
/// positions, and what it held beyond them before.
pub proof fn lemma_rendered<L>(
    cache: Seq<AttributeView<L>>,
    values: Seq<AttributeView<L>>,
    count: nat,
)
    requires
        count <= values.len(),
    ensures
        rendered(cache, values, count).len() == if cache.len() >= count {
            cache.len()
        } else {
            count
        },
        forall|i: int| 0 <= i < count ==> rendered(cache, values, count)[i] == values[i],
        forall|i: int| count <= i < cache.len() ==> rendered(cache, values, count)[i] == cache[i],
    decreases count,
{
    if count > 0 {
        lemma_rendered(cache, values, (count - 1) as nat);
    }
}

/// Rendering twice in a row with the same values writes nothing the second
/// time: every position holds its value already, and the cache stays as it
/// is.
pub proof fn lemma_render_again_writes_nothing<L>(
    cache: Seq<AttributeView<L>>,
    values: Seq<AttributeView<L>>,
)
    ensures
        forall|i: nat|
            i < values.len() ==> !#[trigger] pass_writes(
                rendered(cache, values, values.len()),
                values,
                i,
            ),
        rendered(rendered(cache, values, values.len()), values, values.len()) == rendered(
            cache,
            values,
            values.len(),
        ),
{
    let once = rendered(cache, values, values.len());
    lemma_rendered(cache, values, values.len());
    assert forall|i: nat| i < values.len() implies !#[trigger] pass_writes(once, values, i) by {
        lemma_rendered(once, values, i);
    }
    lemma_rendered(once, values, values.len());
    let twice = rendered(once, values, values.len());
    assert(twice.len() == once.len());
    assert forall|i: int| 0 <= i < once.len() implies twice[i] == once[i] by {
        if i < values.len() {
            assert(twice[i] == values[i]);
            assert(once[i] == values[i]);
        }
    }
    assert(twice =~= once);
}

/// A render pass that follows another, with as many values, writes the
/// display for exactly the values that differ from those of the pass
/// before.
pub proof fn lemma_render_writes_what_changed<L>(
    cache: Seq<AttributeView<L>>,
    before: Seq<AttributeView<L>>,
    values: Seq<AttributeView<L>>,
    index: nat,
)
    requires
        before.len() == values.len(),
        index < values.len(),
    ensures
        pass_writes(rendered(cache, before, before.len()), values, index) == (values[index as int]
            != before[index as int]),
{
    let once = rendered(cache, before, before.len());
    lemma_rendered(cache, before, before.len());
    lemma_rendered(once, values, index);
}

/// The records of the attributes and listeners of one element, by position.
pub struct AttributeList<L>(Vec<Attribute<L>>);

impl<L> View for AttributeList<L> {
    type V = Seq<AttributeView<L>>;

    closed spec fn view(&self) -> Seq<AttributeView<L>> {
        self.0@.map_values(|a: Attribute<L>| a@)
    }
}

impl<L> AttributeList<L> {
    /// A cache without records.
    pub fn new() -> (list: AttributeList<L>)
        ensures
            list@ == Seq::<AttributeView<L>>::empty(),
    {
        let list = AttributeList(Vec::new());
        assert(list@ =~= Seq::<AttributeView<L>>::empty());
        list
    }

    /// The number of positions that hold a record.
    pub fn count(&self) -> (count: usize)
        ensures
            count == self@.len(),
    {
        self.0.len()
    }

    /// The kind of the record at `index`; none at a position that is new.
    /// A value of that kind, and no other, can be rendered there.
    pub fn kind_at(&self, index: usize) -> (kind: Option<AttributeKind>)
        ensures
            kind == if index < self@.len() {
                Some(self@[index as int].kind())
            } else {
                None
            },
    {
        if index < self.0.len() {
            Some(
                match &self.0[index] {
                    Attribute::EventListener(_) => AttributeKind::EventListener,
                    Attribute::String(_) => AttributeKind::String,
                    Attribute::Bool(_) => AttributeKind::Bool,
                    Attribute::I32(_) => AttributeKind::I32,
                    Attribute::U32(_) => AttributeKind::U32,
                    Attribute::F64(_) => AttributeKind::F64,
                },
            )
        } else {
            None
        }
    }

    /// Whether a listener is recorded at `index`.
    pub fn holds_listener(&self, index: usize) -> (holds: bool)
        ensures
            holds == (index < self@.len()
                && self@[index as int] matches AttributeView::EventListener(Some(_))),
    {
        if index < self.0.len() {
            match &self.0[index] {
                Attribute::EventListener(Some(_)) => true,
                _ => false,
            }
        } else {
            false
        }
    }

    fn put(&mut self, index: usize, attribute: Attribute<L>)
        ensures
            final(self)@ == written(old(self)@, index as int, attribute@),
    {
        if index < self.0.len() {
            self.0[index] = attribute;
            assert(final(self)@ =~= old(self)@.update(index as int, attribute@));
        } else {
            self.0.push(attribute);
            assert(final(self)@ =~= old(self)@.push(attribute@));
        }
    }

    /// Records the listener bound at `index`, in place of whatever was
    /// recorded there, or at the end where the position is new.
    pub fn store_listener(&mut self, index: usize, listener: L)
        ensures
            final(self)@ == written(
                old(self)@,
                index as int,
                AttributeView::EventListener(Some(listener)),
            ),
    {
        self.put(index, Attribute::EventListener(Some(listener)));
    }

    /// Whether the display has to be written for a boolean at `index`; the
    /// cache then holds `value` there.
    pub fn check_bool_attribute(&mut self, index: usize, value: bool) -> (write: bool)
        requires
            !kind_mismatch(old(self)@, index as int, AttributeView::Bool(value)),
        ensures
            write == needs_write(old(self)@, index as int, AttributeView::Bool(value)),
            final(self)@ == written(old(self)@, index as int, AttributeView::Bool(value)),
    {
        if index < self.0.len() {
            match &self.0[index] {
                Attribute::Bool(old_value) => {
                    if value == *old_value {
                        assert(self@ =~= written(self@, index as int, AttributeView::Bool(value)));
                        return false;
                    }
                },
                _ => {},
            }
        }
        self.put(index, Attribute::Bool(value));
        true
    }

    /// Whether the display has to be written for a signed number at `index`;
    /// the cache then holds `value` there.
    pub fn check_i32_attribute(&mut self, index: usize, value: i32) -> (write: bool)
        requires
            !kind_mismatch(old(self)@, index as int, AttributeView::I32(value)),
        ensures
            write == needs_write(old(self)@, index as int, AttributeView::I32(value)),
            final(self)@ == written(old(self)@, index as int, AttributeView::I32(value)),
    {
        if index < self.0.len() {
            match &self.0[index] {
                Attribute::I32(old_value) => {
                    if value == *old_value {
                        assert(self@ =~= written(self@, index as int, AttributeView::I32(value)));
                        return false;
                    }
                },
                _ => {},
            }
        }
        self.put(index, Attribute::I32(value));
        true
    }

    /// Whether the display has to be written for an unsigned number at
    /// `index`; the cache then holds `value` there.
    pub fn check_u32_attribute(&mut self, index: usize, value: u32) -> (write: bool)
        requires
            !kind_mismatch(old(self)@, index as int, AttributeView::U32(value)),
        ensures
            write == needs_write(old(self)@, index as int, AttributeView::U32(value)),
            final(self)@ == written(old(self)@, index as int, AttributeView::U32(value)),
    {
        if index < self.0.len() {
            match &self.0[index] {
                Attribute::U32(old_value) => {
                    if value == *old_value {
                        assert(self@ =~= written(self@, index as int, AttributeView::U32(value)));
                        return false;
                    }
                },
                _ => {},
            }
        }
        self.put(index, Attribute::U32(value));
        true
    }

    /// The bits of the float recorded at `index`, for the caller to compare a
    /// new value with; none at a position that is new.
    pub fn f64_attribute(&self, index: usize) -> (bits: Option<u64>)
        requires
            !kind_mismatch(self@, index as int, AttributeView::F64(0)),
        ensures
            bits == if index < self@.len() {
                Some(self@[index as int]->F64_0)
            } else {
                None
            },
    {
        if index < self.0.len() {
            match &self.0[index] {
                Attribute::F64(old_value) => Some(*old_value),
                _ => None,
            }
        } else {
            None
        }
    }

    /// Whether the display has to be written for a float at `index`. The
    /// caller has compared the float with the one recorded there, and `close`
    /// says that it found them nearer than the machine epsilon; it counts for
    /// nothing at a position that is new. Where the display is written, the
    /// cache then holds `bits`; where it is not, the cache keeps its record.
    pub fn check_f64_attribute(&mut self, index: usize, bits: u64, close: bool) -> (write: bool)
        requires
            !kind_mismatch(old(self)@, index as int, AttributeView::F64(bits)),
        ensures
            write == (index >= old(self)@.len() || !close),
            final(self)@ == if write {
                written(old(self)@, index as int, AttributeView::F64(bits))
            } else {
                old(self)@
            },
    {
        if index < self.0.len() && close {
            return false;
        }
        self.put(index, Attribute::F64(bits));
        true
    }

    /// Whether the display has to be written for a string at `index`; the
    /// cache then holds `value` there.
    pub fn check_str_attribute(&mut self, index: usize, value: &str) -> (write: bool)
        requires
            !kind_mismatch(old(self)@, index as int, AttributeView::String(value@)),
        ensures
            write == needs_write(old(self)@, index as int, AttributeView::String(value@)),
            final(self)@ == written(old(self)@, index as int, AttributeView::String(value@)),
    {
        let value: String = value.to_owned();
        if index < self.0.len() {
            match &self.0[index] {
                Attribute::String(old_value) => {
                    if value == *old_value {
                        assert(self@ =~= written(
                            self@,
                            index as int,
                            AttributeView::String(value@),
                        ));
                        return false;
                    }
                },
                _ => {},
            }
        }
        self.put(index, Attribute::String(value));
        true
    }

    /// The cache that a copy of the element starts with: every value, and in
    /// place of every listener an empty record.
    pub fn clone_without_listeners(&self) -> (copy: AttributeList<L>)
        ensures
            copy@ == self@.map_values(|a: AttributeView<L>| a.without_listener()),
    {
        let mut items: Vec<Attribute<L>> = Vec::new();
        let mut i: usize = 0;
        while i < self.0.len()
            invariant
                i <= self.0.len(),
                items@.len() == i,
                forall|j: int|
                    0 <= j < i ==> (#[trigger] items@[j])@ == self@[j].without_listener(),
            decreases self.0.len() - i,
        {
            let item = match &self.0[i] {
                Attribute::EventListener(_) => Attribute::EventListener(None),
                Attribute::String(s) => Attribute::String(s.clone()),
                Attribute::Bool(v) => Attribute::Bool(*v),
                Attribute::I32(v) => Attribute::I32(*v),
                Attribute::U32(v) => Attribute::U32(*v),
                Attribute::F64(v) => Attribute::F64(*v),
            };
            items.push(item);
            i += 1;
        }
        let copy = AttributeList(items);
        assert(copy@ =~= self@.map_values(|a: AttributeView<L>| a.without_listener()));
        copy
    }
}

} // verus!
