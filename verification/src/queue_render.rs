//! Values that render themselves: a list whose changes are noted as they
//! are made and handed, all at once, to whatever renders the list.
//!
//! A change asks for a render, and the render is put in the queue of
//! updates. Changes that come before it runs ask for nothing more: one
//! render shows them all.

use vstd::prelude::*;

verus! {

/// One change of a list. A change that brings an item holds it.
pub enum Diff<I> {
    New,
    Push(I),
    Pop,
    Insert { index: usize, value: I },
    RemoveAtIndex(usize),
    Change { index: usize, new_value: I },
    Move { old_index: usize, new_index: usize },
    Swap { index_1: usize, index_2: usize },
    Clear,
}

/// Something that shows a list and is told of its changes.
pub trait ListRender<I> {
    /// Shows the changes on the display.
    fn render(&mut self, items: &Vec<I>, diffs: &Vec<Diff<I>>);

    /// Whether what this renders into has left the display.
    fn unmounted(&self) -> bool;
}

/// The items of a list, the changes made since they were last rendered,
/// and what renders them.
pub struct QrVecContent<I, R> {
    values: Vec<I>,
    a_render_is_queued: bool,
    diffs: Vec<Diff<I>>,
    renders: Vec<R>,
}

/// What a [`QrVecContent`] stands for.
pub struct QrVecView<I, R> {
    pub values: Seq<I>,
    /// Whether a render waits in the queue of updates.
    pub a_render_is_queued: bool,
    pub diffs: Seq<Diff<I>>,
    pub renders: Seq<R>,
}

impl<I, R> View for QrVecContent<I, R> {
    type V = QrVecView<I, R>;

    closed spec fn view(&self) -> QrVecView<I, R> {
        QrVecView {
            values: self.values@,
            a_render_is_queued: self.a_render_is_queued,
            diffs: self.diffs@,
            renders: self.renders@,
        }
    }
}

impl<I, R: ListRender<I>> QrVecContent<I, R> {
    /// A list without items, changes and renders, for which no render
    /// waits.
    pub fn new() -> (content: QrVecContent<I, R>)
        ensures
            content@ == (QrVecView {
                values: Seq::<I>::empty(),
                a_render_is_queued: false,
                diffs: Seq::<Diff<I>>::empty(),
                renders: Seq::<R>::empty(),
            }),
    {
        QrVecContent {
            values: Vec::new(),
            a_render_is_queued: false,
            diffs: Vec::new(),
            renders: Vec::new(),
        }
    }

    /// What renders the list, in the order it was added.
    pub fn renders(&self) -> (renders: &Vec<R>)
        ensures
            renders@ == self@.renders,
    {
        &self.renders
    }

    /// The items of the list.
    pub fn values(&self) -> (values: &Vec<I>)
        ensures
            values@ == self@.values,
    {
        &self.values
    }

    /// Adds something that renders the list, after those added before.
    pub fn add_render(&mut self, r: R)
        ensures
            final(self)@ == (QrVecView { renders: old(self)@.renders.push(r), ..old(self)@ }),
    {
        self.renders.push(r);
    }

    /// Asks for a render after a change. The result tells whether the
    /// caller has to put a render in the queue of updates: it has, unless
    /// one waits there already.
    pub fn queue_me(&mut self) -> (queue: bool)
        ensures
            queue == !old(self)@.a_render_is_queued,
            final(self)@ == (QrVecView { a_render_is_queued: true, ..old(self)@ }),
    {
        if self.a_render_is_queued {
            false
        } else {
            self.a_render_is_queued = true;
            true
        }
    }

    /// Renders the list: everything that renders it is told of the items
    /// and of the changes, in the order it was added. The changes are then
    /// forgotten, and the next change asks for a render again.
    pub fn render(&mut self)
        ensures
            final(self)@.values == old(self)@.values,
            final(self)@.diffs == Seq::<Diff<I>>::empty(),
            !final(self)@.a_render_is_queued,
            final(self)@.renders.len() == old(self)@.renders.len(),
    {
        let mut i: usize = 0;
        while i < self.renders.len()
            invariant
                self.values@ == old(self).values@,
                self.diffs@ == old(self).diffs@,
                self.renders@.len() == old(self).renders@.len(),
            decreases self.renders.len() - i,
        {
            self.renders[i].render(&self.values, &self.diffs);
            i += 1;
        }
        self.diffs.clear();
        self.a_render_is_queued = false;
    }
}

/// A list that renders itself.
pub struct QrVec<I, R>(pub QrVecContent<I, R>);

impl<I, R: ListRender<I>> QrVec<I, R> {
    /// A list without items, changes and renders.
    pub fn new() -> (list: QrVec<I, R>)
        ensures
            list.0@ == (QrVecView {
                values: Seq::<I>::empty(),
                a_render_is_queued: false,
                diffs: Seq::<Diff<I>>::empty(),
                renders: Seq::<R>::empty(),
            }),
    {
        QrVec(QrVecContent::new())
    }

    /// What the list holds.
    pub fn content(&self) -> (content: &QrVecContent<I, R>)
        ensures
            *content == self.0,
    {
        &self.0
    }

    /// Asks for a render after a change; the result tells whether the
    /// caller has to put one in the queue of updates.
    pub fn queue_me(&mut self) -> (queue: bool)
        ensures
            queue == !old(self).0@.a_render_is_queued,
            final(self).0@ == (QrVecView { a_render_is_queued: true, ..old(self).0@ }),
    {
        self.0.queue_me()
    }

    /// Renders the list and forgets the changes.
    pub fn render(&mut self)
        ensures
            final(self).0@.values == old(self).0@.values,
            final(self).0@.diffs == Seq::<Diff<I>>::empty(),
            !final(self).0@.a_render_is_queued,
            final(self).0@.renders.len() == old(self).0@.renders.len(),
    {
        self.0.render();
    }

    /// Hands out no item: a list gives none of its items away, and stays
    /// as it is.
    pub fn pop(&mut self) -> (item: Option<I>)
        ensures
            item is None,
            *final(self) == *old(self),
    {
        None
    }
}

} // verus!
