//! Components and the update scheduler.
//!
//! A component owns its state and the root of what it has rendered. Every
//! change of state goes through the scheduler, which lets one update run at
//! a time: an update that finds its component held by an update in progress
//! does not wait and does not fail, it is put in a queue, and the update that
//! began first runs the queue when it is done.

use crate::dom::document::Document;
use crate::dom::document::DomOp;
use crate::dom::document::DomOpView;
use crate::dom::element::Element;
use crate::dom::element::ElementStatus;
use crate::dom::element::ElementType;
use crate::dom::nodes::Node;
use crate::dom::nodes::is_new_element;
use crate::dom::nodes::nodes_append_ops;
use crate::render::element::ElementRender;
use std::collections::VecDeque;
use vstd::prelude::*;

verus! {

/// Whether an update asks for its component to be rendered again.
#[derive(Clone, Copy, PartialEq, Eq, Structural, Debug)]
#[must_use]
pub enum ShouldRender {
    No,
    Yes,
}

/// Where a component is in its life on the display.
#[derive(Clone, Copy, PartialEq, Eq, Structural, Debug)]
pub enum MountStatus {
    /// A child component that was made and not attached yet.
    Never,
    /// A child component that is attached to the display.
    Mounted,
    /// A child component that was attached and has been detached.
    Unmounted,
    /// The top component of an application: attached for good.
    PermanentlyMounted,
}

/// What an update hands back: whether to render, and the commands to run
/// after rendering, in the order they were added.
#[must_use]
pub struct Checklist<K> {
    should_render: ShouldRender,
    commands: Vec<K>,
}

/// What a [`Checklist`] stands for.
pub struct ChecklistView<K> {
    pub should_render: ShouldRender,
    pub commands: Seq<K>,
}

impl<K> View for Checklist<K> {
    type V = ChecklistView<K>;

    closed spec fn view(&self) -> ChecklistView<K> {
        ChecklistView { should_render: self.should_render, commands: self.commands@ }
    }
}

impl<K> Checklist<K> {
    /// A checklist without commands.
    pub fn from(should_render: ShouldRender) -> (list: Checklist<K>)
        ensures
            list@ == (ChecklistView { should_render, commands: Seq::<K>::empty() }),
    {
        Checklist { should_render, commands: Vec::new() }
    }

    /// The parts of the checklist.
    pub fn into_parts(self) -> (parts: (ShouldRender, Vec<K>))
        ensures
            parts.0 == self@.should_render,
            parts.1@ == self@.commands,
    {
        (self.should_render, self.commands)
    }

    /// A checklist that asks for a render and has no commands.
    pub fn should_render() -> (list: Checklist<K>)
        ensures
            list@ == (ChecklistView {
                should_render: ShouldRender::Yes,
                commands: Seq::<K>::empty(),
            }),
    {
        Checklist { should_render: ShouldRender::Yes, commands: Vec::new() }
    }

    /// A checklist that asks for no render and has no commands.
    pub fn skip_render() -> (list: Checklist<K>)
        ensures
            list@ == (ChecklistView {
                should_render: ShouldRender::No,
                commands: Seq::<K>::empty(),
            }),
    {
        Checklist { should_render: ShouldRender::No, commands: Vec::new() }
    }

    /// What follows the change of state, step by step: the render, if one
    /// is asked for, and then the commands in the order they were added.
    pub fn into_steps(self) -> (steps: Vec<UpdateStep<K>>)
        ensures
            steps@ == steps_of(self@),
    {
        let mut steps: Vec<UpdateStep<K>> = Vec::new();
        match self.should_render {
            ShouldRender::Yes => {
                steps.push(UpdateStep::Render);
            },
            ShouldRender::No => {},
        }
        let ghost first = steps@;
        let ghost all = self.commands@;
        for command in commands: self.commands
            invariant
                commands.seq() == all,
                steps@ == first + all.subrange(0, commands.index() as int).map_values(
                    |k: K| UpdateStep::Command(k),
                ),
        {
            steps.push(UpdateStep::Command(command));
            assert(all.subrange(0, commands.index() + 1) =~= all.subrange(
                0,
                commands.index() as int,
            ).push(command));
            assert(steps@ =~= first + all.subrange(0, commands.index() + 1).map_values(
                |k: K| UpdateStep::Command(k),
            ));
        }
        assert(all.subrange(0, all.len() as int) =~= all);
        steps
    }

    /// Asks for a render.
    pub fn set_should_render(&mut self)
        ensures
            final(self)@ == (ChecklistView { should_render: ShouldRender::Yes, ..old(self)@ }),
    {
        self.should_render = ShouldRender::Yes;
    }

    /// Asks for no render.
    pub fn set_skip_render(&mut self)
        ensures
            final(self)@ == (ChecklistView { should_render: ShouldRender::No, ..old(self)@ }),
    {
        self.should_render = ShouldRender::No;
    }

    /// Adds the command, if there is one, after those added before.
    pub fn add_option_command(&mut self, cmd: Option<K>)
        ensures
            final(self)@ == (ChecklistView {
                commands: match cmd {
                    Some(c) => old(self)@.commands.push(c),
                    None => old(self)@.commands,
                },
                ..old(self)@
            }),
    {
        if let Some(cmd) = cmd {
            self.commands.push(cmd);
        }
    }

    /// Adds the command after those added before.
    pub fn add_command(&mut self, cmd: K)
        ensures
            final(self)@ == (ChecklistView {
                commands: old(self)@.commands.push(cmd),
                ..old(self)@
            }),
    {
        self.commands.push(cmd);
    }
}

/// One step of what follows the change of state in an update.
pub enum UpdateStep<K> {
    /// The component is rendered.
    Render,
    /// A command is run.
    Command(K),
}

/// What follows the change of state in an update that hands back the
/// checklist: the render, if the update asks for one, and then the commands,
/// in the order they were added, each once.
pub open spec fn steps_of<K>(list: ChecklistView<K>) -> Seq<UpdateStep<K>> {
    let commands = list.commands.map_values(|k: K| UpdateStep::Command(k));
    if list.should_render == ShouldRender::Yes {
        seq![UpdateStep::Render] + commands
    } else {
        commands
    }
}

/// A component: its state, the root of what it has rendered, and the
/// listeners that it keeps on the window.
pub struct CompInstance<C, L, H> {
    /// None only until the component is given its state.
    pub state: Option<C>,
    pub root_element: Element<L, H>,
    pub mount_status: MountStatus,
    pub events: Vec<L>,
}

/// The status that the root of a component is rendered with: made in this
/// pass if nothing was rendered under it yet.
pub open spec fn root_status<L, H>(root: Element<L, H>) -> ElementStatus {
    if root.nodes.0@.len() == 0 {
        ElementStatus::JustCreated
    } else {
        ElementStatus::Existing
    }
}

/// The status of a component after it is attached: attached, unless it is
/// attached for good.
pub open spec fn mounted(status: MountStatus) -> MountStatus {
    if status == MountStatus::PermanentlyMounted {
        status
    } else {
        MountStatus::Mounted
    }
}

/// The status of a component after it is detached: detached, unless it is
/// attached for good.
pub open spec fn unmounted(status: MountStatus) -> MountStatus {
    if status == MountStatus::PermanentlyMounted {
        status
    } else {
        MountStatus::Unmounted
    }
}

impl<C, L, H> CompInstance<C, L, H> {
    /// A component without state. With a root that the display already
    /// has, it is attached for good. Without one it is a child component
    /// that was never attached; its root is a stand-in until it is.
    pub fn with_root(root: Option<(u64, ElementType)>, doc: &mut Document) -> (instance:
        CompInstance<C, L, H>)
        requires
            root is None ==> old(doc).has_room(1),
        ensures
            instance.state is None,
            instance.events@.len() == 0,
            match root {
                Some((node, element_type)) => {
                    &&& instance.mount_status == MountStatus::PermanentlyMounted
                    &&& instance.root_element.ws_element == node
                    &&& instance.root_element.element_type == element_type
                    &&& instance.root_element.attributes@.len() == 0
                    &&& instance.root_element.nodes.0@.len() == 0
                    &&& *final(doc) == *old(doc)
                },
                None => {
                    &&& instance.mount_status == MountStatus::Never
                    &&& is_new_element(
                        Node::Element(instance.root_element),
                        old(doc)@.next_node,
                        "div"@,
                    )
                    &&& final(doc).created(
                        *old(doc),
                        1,
                        seq![
                            DomOpView::CreateElement {
                                node: old(doc)@.next_node as u64,
                                namespace: None,
                                tag: "div"@,
                            },
                        ],
                    )
                },
            },
    {
        let (root_element, mount_status) = match root {
            Some((node, element_type)) => (
                Element::from_ws_element(node, element_type),
                MountStatus::PermanentlyMounted,
            ),
            None => (Element::new_ns(None, "div", doc), MountStatus::Never),
        };
        CompInstance { state: None, root_element, mount_status, events: Vec::new() }
    }

    /// Gives the component its state.
    pub fn set_state(&mut self, state: C)
        ensures
            final(self).state == Some(state),
            final(self).root_element == old(self).root_element,
            final(self).mount_status == old(self).mount_status,
            final(self).events == old(self).events,
    {
        self.state = Some(state);
    }

    /// The state of the component.
    pub fn state(&self) -> (state: &C)
        requires
            self.state is Some,
        ensures
            *state == self.state->Some_0,
    {
        match &self.state {
            Some(state) => state,
            None => vstd::pervasive::unreached(),
        }
    }

    /// The state of the component, to update.
    pub fn state_mut(&mut self) -> (state: &mut C)
        requires
            old(self).state is Some,
        ensures
            *state == old(self).state->Some_0,
            final(self).state == Some(*final(state)),
            final(self).root_element == old(self).root_element,
            final(self).mount_status == old(self).mount_status,
            final(self).events == old(self).events,
    {
        match &mut self.state {
            Some(state) => state,
            None => vstd::pervasive::unreached(),
        }
    }

    /// Whether the component is a child component that is attached.
    pub fn is_mounted(&self) -> (mounted: bool)
        ensures
            mounted == (self.mount_status == MountStatus::Mounted),
    {
        matches!(self.mount_status, MountStatus::Mounted)
    }

    /// Keeps a listener on the window for as long as the component lives.
    pub fn window_event(&mut self, listener: L)
        ensures
            final(self).events@ == old(self).events@.push(listener),
            final(self).state == old(self).state,
            final(self).root_element == old(self).root_element,
            final(self).mount_status == old(self).mount_status,
    {
        self.events.push(listener);
    }

    /// Records that the component was detached. A component that is
    /// attached for good stays so.
    pub fn set_mount_status_to_unmounted(&mut self)
        ensures
            final(self).mount_status == unmounted(old(self).mount_status),
            final(self).state == old(self).state,
            final(self).root_element == old(self).root_element,
            final(self).events == old(self).events,
    {
        match self.mount_status {
            MountStatus::PermanentlyMounted => {},
            _ => {
                self.mount_status = MountStatus::Unmounted;
            },
        }
    }

    /// Detaches the component: it is recorded as detached, whatever is
    /// under its root is taken away from the display, and the component
    /// forgets what it had rendered there.
    pub fn unmount(&mut self, doc: &mut Document)
        ensures
            final(self).mount_status == unmounted(old(self).mount_status),
            final(self).state == old(self).state,
            final(self).events == old(self).events,
            final(self).root_element.ws_element == old(self).root_element.ws_element,
            final(self).root_element.element_type == old(self).root_element.element_type,
            final(self).root_element.attributes == old(self).root_element.attributes,
            final(self).root_element.nodes.0@.len() == 0,
            final(doc).recorded(
                *old(doc),
                seq![
                    DomOpView::SetTextContent {
                        node: old(self).root_element.ws_element,
                        content: None,
                    },
                ],
            ),
    {
        self.set_mount_status_to_unmounted();
        doc.record(DomOp::SetTextContent { node: self.root_element.ws_element, content: None });
        self.root_element.nodes.clear_vec();
    }

    /// The state and the walk over the root, for the render function of
    /// the component. The root is rendered as made in this pass if nothing
    /// was rendered under it yet, else as there already.
    pub fn render<'a>(&'a mut self, doc: &'a mut Document) -> (render: (
        &'a C,
        ElementRender<'a, L, H>,
    ))
        requires
            old(self).state is Some,
        ensures
            *render.0 == old(self).state->Some_0,
            render.1.status == root_status(old(self).root_element),
            render.1.index == 0,
            render.1.update_mode,
            render.1.select_value is None,
            *render.1.element == old(self).root_element,
            *render.1.doc == *old(doc),
            final(self).root_element == *final(render.1.element),
            final(self).state == old(self).state,
            final(self).mount_status == old(self).mount_status,
            final(self).events == old(self).events,
            *final(doc) == *final(render.1.doc),
    {
        let status = if self.root_element.is_empty() {
            ElementStatus::JustCreated
        } else {
            ElementStatus::Existing
        };
        let state = match &self.state {
            Some(state) => state,
            None => vstd::pervasive::unreached(),
        };
        (state, ElementRender::new(&mut self.root_element, doc, status))
    }

    /// What follows the change of state in an update: the state and the
    /// walk over the root if the update asks for a render, else nothing.
    /// The commands of the update are run after the render function is
    /// done.
    pub fn extra_update<'a>(
        &'a mut self,
        should_render: ShouldRender,
        doc: &'a mut Document,
    ) -> (render: Option<(&'a C, ElementRender<'a, L, H>)>)
        requires
            old(self).state is Some,
        ensures
            final(self).state == old(self).state,
            final(self).mount_status == old(self).mount_status,
            final(self).events == old(self).events,
            should_render == ShouldRender::Yes ==> {
                &&& render is Some
                &&& *render->Some_0.0 == old(self).state->Some_0
                &&& render->Some_0.1.status == root_status(old(self).root_element)
                &&& render->Some_0.1.index == 0
                &&& render->Some_0.1.update_mode
                &&& render->Some_0.1.select_value is None
                &&& *render->Some_0.1.element == old(self).root_element
                &&& *render->Some_0.1.doc == *old(doc)
                &&& final(self).root_element == *final(render->Some_0.1.element)
                &&& *final(doc) == *final(render->Some_0.1.doc)
            },
            should_render == ShouldRender::No ==> {
                &&& render is None
                &&& final(self).root_element == old(self).root_element
                &&& *final(doc) == *old(doc)
            },
    {
        match should_render {
            ShouldRender::Yes => Some(self.render(doc)),
            ShouldRender::No => None,
        }
    }

    /// Attaches the component: the display element `ws_element` becomes its
    /// root, and what the component had rendered is put under it. The
    /// result is the state and the walk over the root: attaching always
    /// renders.
    pub fn mount_to<'a>(
        &'a mut self,
        ws_element: u64,
        element_type: ElementType,
        doc: &'a mut Document,
    ) -> (render: (&'a C, ElementRender<'a, L, H>))
        requires
            old(self).state is Some,
        ensures
            *render.0 == old(self).state->Some_0,
            render.1.status == root_status(old(self).root_element),
            render.1.index == 0,
            render.1.update_mode,
            render.1.select_value is None,
            render.1.element.ws_element == ws_element,
            render.1.element.element_type == element_type,
            render.1.element.attributes == old(self).root_element.attributes,
            render.1.element.nodes == old(self).root_element.nodes,
            render.1.doc.recorded(
                *old(doc),
                nodes_append_ops(
                    old(self).root_element.nodes.0@,
                    old(self).root_element.nodes.0@.len(),
                    ws_element,
                ),
            ),
            final(self).root_element == *final(render.1.element),
            final(self).state == old(self).state,
            final(self).mount_status == mounted(old(self).mount_status),
            final(self).events == old(self).events,
            *final(doc) == *final(render.1.doc),
    {
        self.root_element.replace_ws_element(ws_element, element_type, doc);
        match self.mount_status {
            MountStatus::PermanentlyMounted => {},
            _ => {
                self.mount_status = MountStatus::Mounted;
            },
        }
        self.render(doc)
    }

    /// Ends the life of the component on the display: whatever is under
    /// its root is taken away. What is left of the component is its state.
    pub fn detach(self, doc: &mut Document) -> (state: Option<C>)
        ensures
            state == self.state,
            final(doc).recorded(
                *old(doc),
                seq![
                    DomOpView::SetTextContent { node: self.root_element.ws_element, content: None },
                ],
            ),
    {
        doc.record(DomOp::SetTextContent { node: self.root_element.ws_element, content: None });
        self.state
    }
}

/// The queue after `count` of its updates were taken out, oldest first.
pub open spec fn drained<T>(queue: Seq<T>, count: int) -> Seq<T> {
    queue.subrange(count, queue.len() as int)
}

/// An update that is put off runs in its turn: it changes nothing for the
/// updates that waited before it, which are taken in their order, and it is
/// the one taken right after them. This holds at every moment of a run of
/// the queue: an update that is put off while the queue is run lands behind
/// all that still wait.
pub proof fn lemma_deferred_runs_in_turn<T>(queue: Seq<T>, task: T)
    ensures
        forall|k: int|
            0 <= k < queue.len() ==> (#[trigger] drained(queue.push(task), k))[0] == queue[k],
        drained(queue.push(task), queue.len() as int) == seq![task],
        forall|k: int|
            0 <= k <= queue.len() ==> #[trigger] drained(queue.push(task), k) == drained(
                queue,
                k,
            ).push(task),
{
    assert(drained(queue.push(task), queue.len() as int) =~= seq![task]);
    assert forall|k: int| 0 <= k <= queue.len() implies #[trigger] drained(queue.push(task), k)
        == drained(queue, k).push(task) by {
        assert(drained(queue.push(task), k) =~= drained(queue, k).push(task));
    }
}

/// Taking updates out one by one is taking them out at once.
pub proof fn lemma_drained_step<T>(queue: Seq<T>, count: int)
    requires
        0 <= count < queue.len(),
    ensures
        drained(drained(queue, count), 1) == drained(queue, count + 1),
        drained(queue, count)[0] == queue[count],
{
    assert(drained(drained(queue, count), 1) =~= drained(queue, count + 1));
}

/// The updates that wait for their turn, oldest first, and whether an
/// update in progress has promised to run them.
pub struct UpdateQueue<T> {
    will_be_executed: bool,
    queue: VecDeque<T>,
}

/// What an [`UpdateQueue`] stands for.
pub struct UpdateQueueView<T> {
    /// Whether an update in progress has promised to run the queue.
    pub will_be_executed: bool,
    /// The updates that wait, oldest first.
    pub queue: Seq<T>,
}

impl<T> View for UpdateQueue<T> {
    type V = UpdateQueueView<T>;

    closed spec fn view(&self) -> UpdateQueueView<T> {
        UpdateQueueView { will_be_executed: self.will_be_executed, queue: self.queue@ }
    }
}

impl<T> UpdateQueue<T> {
    /// A queue in which nothing waits and which nobody has promised to run.
    pub fn new() -> (queue: UpdateQueue<T>)
        ensures
            queue@ == (UpdateQueueView { will_be_executed: false, queue: Seq::<T>::empty() }),
    {
        UpdateQueue { will_be_executed: false, queue: VecDeque::new() }
    }

    /// Whether the caller has to run the queue when it is done. The first
    /// that asks while nobody has promised gets the duty; whoever asks
    /// while the promise stands does not.
    pub fn i_have_to_execute_update_queue(&mut self) -> (promise: bool)
        ensures
            promise == !old(self)@.will_be_executed,
            final(self)@ == (UpdateQueueView { will_be_executed: true, ..old(self)@ }),
    {
        if self.will_be_executed {
            false
        } else {
            self.will_be_executed = true;
            true
        }
    }

    /// Puts an update last in the queue.
    pub fn add(&mut self, f: T)
        ensures
            final(self)@ == (UpdateQueueView { queue: old(self)@.queue.push(f), ..old(self)@ }),
    {
        self.queue.push_back(f);
    }

    /// Takes the update that has waited longest out of the queue.
    pub fn take(&mut self) -> (f: Option<T>)
        ensures
            final(self)@.will_be_executed == old(self)@.will_be_executed,
            match f {
                Some(f) => {
                    &&& old(self)@.queue.len() > 0
                    &&& f == old(self)@.queue[0]
                    &&& final(self)@.queue == drained(old(self)@.queue, 1)
                },
                None => old(self)@.queue.len() == 0 && final(self)@.queue == old(self)@.queue,
            },
    {
        self.queue.pop_front()
    }

    /// One step of running the queue: the update that has waited longest,
    /// for the caller to run before it asks again. When nothing waits any
    /// more, the promise to run the queue is fulfilled.
    pub fn execute(&mut self) -> (f: Option<T>)
        ensures
            match f {
                Some(f) => {
                    &&& old(self)@.queue.len() > 0
                    &&& f == old(self)@.queue[0]
                    &&& final(self)@ == (UpdateQueueView {
                        queue: drained(old(self)@.queue, 1),
                        ..old(self)@
                    })
                },
                None => {
                    &&& old(self)@.queue.len() == 0
                    &&& final(self)@ == (UpdateQueueView {
                        will_be_executed: false,
                        ..old(self)@
                    })
                },
            },
    {
        let f = self.take();
        if f.is_none() {
            self.will_be_executed = false;
        }
        f
    }

    /// One step of what an update does when it is done. An update that has
    /// not promised to run the queue leaves it alone. The one that has runs
    /// it step by step.
    pub fn execute_update_queue(&mut self, promise: bool) -> (f: Option<T>)
        ensures
            !promise ==> f is None && final(self)@ == old(self)@,
            promise ==> match f {
                Some(f) => {
                    &&& old(self)@.queue.len() > 0
                    &&& f == old(self)@.queue[0]
                    &&& final(self)@ == (UpdateQueueView {
                        queue: drained(old(self)@.queue, 1),
                        ..old(self)@
                    })
                },
                None => {
                    &&& old(self)@.queue.len() == 0
                    &&& final(self)@ == (UpdateQueueView {
                        will_be_executed: false,
                        ..old(self)@
                    })
                },
            },
    {
        if !promise {
            return None;
        }
        self.execute()
    }
}

/// Puts an update last in the queue. It is never run at once.
pub fn update_component<T>(queue: &mut UpdateQueue<T>, fn_update: T)
    ensures
        final(queue)@ == (UpdateQueueView {
            queue: old(queue)@.queue.push(fn_update),
            ..old(queue)@
        }),
{
    queue.add(fn_update);
}

/// The place of a component that several parties refer to. One of them at
/// a time holds the component; the others find the place empty.
pub struct RcComp<C, L, H> {
    instance: Option<CompInstance<C, L, H>>,
}

impl<C, L, H> View for RcComp<C, L, H> {
    type V = Option<CompInstance<C, L, H>>;

    closed spec fn view(&self) -> Option<CompInstance<C, L, H>> {
        self.instance
    }
}

/// A child component is a component like any other.
pub type ChildComp<C, L, H> = RcComp<C, L, H>;

/// How an update began.
pub enum Started<U, C, L, H> {
    /// The component is gone. The update was given up, and nothing else
    /// was touched.
    Dropped,
    /// The component is held by an update in progress. The update waits in
    /// the queue; the promise to run the queue is as it was.
    Deferred,
    /// The update holds the component, and is handed back to be run. If
    /// `promise` holds, it has to run the queue when it is done.
    Run { task: U, instance: CompInstance<C, L, H>, promise: bool },
}

impl<C, L, H> RcComp<C, L, H> {
    /// The place of a component without state.
    pub fn with_root(root: Option<(u64, ElementType)>, doc: &mut Document) -> (comp: RcComp<
        C,
        L,
        H,
    >)
        requires
            root is None ==> old(doc).has_room(1),
        ensures
            comp@ matches Some(instance) && instance.state is None && instance.events@.len() == 0
                && match root {
                Some((node, element_type)) => {
                    &&& instance.mount_status == MountStatus::PermanentlyMounted
                    &&& instance.root_element.ws_element == node
                    &&& instance.root_element.element_type == element_type
                    &&& instance.root_element.attributes@.len() == 0
                    &&& instance.root_element.nodes.0@.len() == 0
                    &&& *final(doc) == *old(doc)
                },
                None => {
                    &&& instance.mount_status == MountStatus::Never
                    &&& is_new_element(
                        Node::Element(instance.root_element),
                        old(doc)@.next_node,
                        "div"@,
                    )
                    &&& final(doc).created(
                        *old(doc),
                        1,
                        seq![
                            DomOpView::CreateElement {
                                node: old(doc)@.next_node as u64,
                                namespace: None,
                                tag: "div"@,
                            },
                        ],
                    )
                },
            },
    {
        RcComp { instance: Some(CompInstance::with_root(root, doc)) }
    }

    /// The place of a child component with its state, never attached.
    pub fn from(state: C, doc: &mut Document) -> (comp: RcComp<C, L, H>)
        requires
            old(doc).has_room(1),
        ensures
            comp@ matches Some(instance) && instance.state == Some(state)
                && instance.events@.len() == 0 && instance.mount_status == MountStatus::Never
                && is_new_element(
                Node::Element(instance.root_element),
                old(doc)@.next_node,
                "div"@,
            ),
            final(doc).created(
                *old(doc),
                1,
                seq![
                    DomOpView::CreateElement {
                        node: old(doc)@.next_node as u64,
                        namespace: None,
                        tag: "div"@,
                    },
                ],
            ),
    {
        let mut instance = CompInstance::with_root(None, doc);
        instance.set_state(state);
        RcComp { instance: Some(instance) }
    }

    /// Whether the component is held by somebody.
    pub fn is_borrowed(&self) -> (borrowed: bool)
        ensures
            borrowed == (self@ is None),
    {
        self.instance.is_none()
    }

    /// Takes hold of the component, if nobody holds it.
    pub fn try_borrow_mut(&mut self) -> (instance: Option<CompInstance<C, L, H>>)
        ensures
            instance == old(self)@,
            final(self)@ is None,
    {
        self.instance.take()
    }

    /// Puts the component back into its place.
    pub fn release(&mut self, instance: CompInstance<C, L, H>)
        ensures
            final(self)@ == Some(instance),
    {
        self.instance = Some(instance);
    }

    /// Ends an update: the component is put back into its place, and only
    /// then the queue is run, if the update has promised to. The result is
    /// the first step of that run.
    pub fn finish_update<T>(
        &mut self,
        queue: &mut UpdateQueue<T>,
        instance: CompInstance<C, L, H>,
        promise: bool,
    ) -> (f: Option<T>)
        ensures
            final(self)@ == Some(instance),
            !promise ==> f is None && final(queue)@ == old(queue)@,
            promise ==> match f {
                Some(f) => {
                    &&& old(queue)@.queue.len() > 0
                    &&& f == old(queue)@.queue[0]
                    &&& final(queue)@ == (UpdateQueueView {
                        queue: drained(old(queue)@.queue, 1),
                        ..old(queue)@
                    })
                },
                None => {
                    &&& old(queue)@.queue.len() == 0
                    &&& final(queue)@ == (UpdateQueueView {
                        will_be_executed: false,
                        ..old(queue)@
                    })
                },
            },
    {
        self.release(instance);
        queue.execute_update_queue(promise)
    }

    /// The component, to look at.
    pub fn comp_instance(&self) -> (instance: &CompInstance<C, L, H>)
        requires
            self@ is Some,
        ensures
            *instance == self@->Some_0,
    {
        match &self.instance {
            Some(instance) => instance,
            None => vstd::pervasive::unreached(),
        }
    }

    /// Gives the component its state.
    pub fn set_state(&mut self, state: C)
        requires
            old(self)@ is Some,
        ensures
            final(self)@ == Some(
                CompInstance { state: Some(state), ..old(self)@->Some_0 },
            ),
    {
        match &mut self.instance {
            Some(instance) => instance.set_state(state),
            None => {},
        }
    }

    /// Begins the first render of the component: the caller holds the
    /// component, renders it if `render` holds, which is when nothing was
    /// rendered under its root yet, puts it back, and then runs the queue
    /// if `promise` holds.
    pub fn first_render<T>(&mut self, queue: &mut UpdateQueue<T>) -> (begun: (
        CompInstance<C, L, H>,
        bool,
        bool,
    ))
        requires
            old(self)@ is Some,
        ensures
            begun.0 == old(self)@->Some_0,
            begun.1 == (old(self)@->Some_0.root_element.nodes.0@.len() == 0),
            begun.2 == !old(queue)@.will_be_executed,
            final(self)@ is None,
            final(queue)@ == (UpdateQueueView { will_be_executed: true, ..old(queue)@ }),
    {
        let promise = queue.i_have_to_execute_update_queue();
        match self.instance.take() {
            Some(instance) => {
                let render = instance.root_element.is_empty();
                (instance, render, promise)
            },
            None => vstd::pervasive::unreached(),
        }
    }
}

/// Begins an update of a component. `comp` is the place of the component,
/// or nothing if the component is gone; `task` is the update; `queue_task`
/// makes of an update what waits in the queue.
///
/// An update of a component that is gone is given up. An update of a
/// component that is held by an update in progress is put last in the
/// queue, to be run later; the promise to run the queue stays with whoever
/// has given it. Else the update asks whether it has to run the queue when
/// it is done, holds the component from now on, and is handed back to be
/// run.
pub fn execute_callback<T, U, F, C, L, H>(
    queue: &mut UpdateQueue<T>,
    comp: Option<&mut RcComp<C, L, H>>,
    task: U,
    queue_task: F,
) -> (started: Started<U, C, L, H>) where F: FnOnce(U) -> T
    requires
        comp is Some && old(comp->Some_0)@ is None ==> call_requires(queue_task, (task,)),
    ensures
        comp is None ==> started is Dropped && final(queue)@ == old(queue)@,
        comp is Some && old(comp->Some_0)@ is None ==> {
            &&& started is Deferred
            &&& final(queue)@.will_be_executed == old(queue)@.will_be_executed
            &&& final(queue)@.queue.len() == old(queue)@.queue.len() + 1
            &&& final(queue)@.queue.drop_last() == old(queue)@.queue
            &&& call_ensures(queue_task, (task,), final(queue)@.queue.last())
            &&& final(comp->Some_0)@ is None
        },
        comp is Some && old(comp->Some_0)@ is Some ==> {
            &&& started == (Started::<U, C, L, H>::Run {
                task,
                instance: old(comp->Some_0)@->Some_0,
                promise: !old(queue)@.will_be_executed,
            })
            &&& final(queue)@ == (UpdateQueueView { will_be_executed: true, ..old(queue)@ })
            &&& final(comp->Some_0)@ is None
        },
{
    match comp {
        None => Started::Dropped,
        Some(place) => {
            match place.try_borrow_mut() {
                Some(instance) => {
                    let promise = queue.i_have_to_execute_update_queue();
                    Started::Run { task, instance, promise }
                },
                None => {
                    let waiting = queue_task(task);
                    queue.add(waiting);
                    assert(final(queue)@.queue.drop_last() =~= old(queue)@.queue);
                    Started::Deferred
                },
            }
        },
    }
}

} // verus!
