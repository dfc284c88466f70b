use spair::component::execute_callback;
use spair::component::update_component;
use spair::component::Checklist;
use spair::component::CompInstance;
use spair::component::MountStatus;
use spair::component::RcComp;
use spair::component::ShouldRender;
use spair::component::Started;
use spair::component::UpdateQueue;
use spair::component::UpdateStep;
use spair::dom::document::Document;
use spair::dom::document::DomOp;
use spair::dom::element::ElementStatus;
use spair::dom::element::ElementType;

type Comp = RcComp<i32, u32, u32>;

/// Runs the queue as the update that promised to does. Every task names
/// the component to update and the number to add to its state.
fn drain(queue: &mut UpdateQueue<(usize, i32)>, comps: &mut Vec<Comp>, log: &mut Vec<(usize, i32)>) {
    while let Some(task) = queue.execute_update_queue(true) {
        run(queue, comps, task, log);
    }
}

/// One update: begins it, changes the state, ends it.
fn run(queue: &mut UpdateQueue<(usize, i32)>, comps: &mut Vec<Comp>, task: (usize, i32), log: &mut Vec<(usize, i32)>) {
    let place = comps.get_mut(task.0);
    match execute_callback(queue, place, task, |task| task) {
        Started::Dropped | Started::Deferred => {}
        Started::Run { task, mut instance, promise } => {
            *instance.state_mut() += task.1;
            log.push(task);
            comps[task.0].release(instance);
            if promise {
                drain(queue, comps, log);
            }
        }
    }
}

fn component(state: i32, doc: &mut Document) -> Comp {
    RcComp::from(state, doc)
}

#[test]
fn only_the_first_update_promises_to_run_the_queue() {
    let mut queue: UpdateQueue<u32> = UpdateQueue::new();
    assert!(queue.i_have_to_execute_update_queue());
    assert!(!queue.i_have_to_execute_update_queue());
    assert!(!queue.i_have_to_execute_update_queue());
    // who has not promised leaves the queue alone
    queue.add(1);
    assert_eq!(queue.execute_update_queue(false), None);
    assert!(!queue.i_have_to_execute_update_queue());
    // who has promised runs it to the end and is then free
    assert_eq!(queue.execute_update_queue(true), Some(1));
    assert!(!queue.i_have_to_execute_update_queue());
    assert_eq!(queue.execute_update_queue(true), None);
    assert!(queue.i_have_to_execute_update_queue());
}

#[test]
fn queue_is_first_in_first_out() {
    let mut queue: UpdateQueue<u32> = UpdateQueue::new();
    update_component(&mut queue, 1);
    update_component(&mut queue, 2);
    queue.add(3);
    assert_eq!(queue.take(), Some(1));
    // what is added while the queue is run lands after what waits
    queue.add(4);
    assert_eq!(queue.execute(), Some(2));
    assert_eq!(queue.execute(), Some(3));
    assert_eq!(queue.execute(), Some(4));
    assert_eq!(queue.execute(), None);
    assert_eq!(queue.take(), None);
}

#[test]
fn scheduling_never_runs_at_once() {
    let mut queue: UpdateQueue<u32> = UpdateQueue::new();
    update_component(&mut queue, 1);
    // the promise is still free: nothing has begun
    assert!(queue.i_have_to_execute_update_queue());
    assert_eq!(queue.take(), Some(1));
}

#[test]
fn update_of_a_free_component_runs_at_once() {
    let mut doc = Document::new();
    let mut queue: UpdateQueue<u32> = UpdateQueue::new();
    let mut comp = component(10, &mut doc);
    assert!(!comp.is_borrowed());
    match execute_callback(&mut queue, Some(&mut comp), 7, |task| task) {
        Started::Run { task, instance, promise } => {
            assert_eq!(task, 7);
            assert!(promise);
            assert_eq!(*instance.state(), 10);
            assert!(comp.is_borrowed());
            comp.release(instance);
        }
        _ => panic!("the update has to run"),
    }
    assert!(!comp.is_borrowed());
    assert_eq!(queue.execute_update_queue(true), None);
}

#[test]
fn update_of_a_held_component_is_put_off_and_runs_in_its_turn() {
    let mut doc = Document::new();
    let mut queue: UpdateQueue<(usize, i32)> = UpdateQueue::new();
    let mut comps = vec![component(0, &mut doc), component(0, &mut doc)];
    let mut log = Vec::new();
    // an update of Y (the component 1) is in progress
    let (held, promise) = match execute_callback(&mut queue, comps.get_mut(1), (1, 100), |task| task) {
        Started::Run { instance, promise, .. } => (instance, promise),
        _ => panic!("the update has to run"),
    };
    assert!(promise);
    // within it an update of X (the component 0) runs at once, without the promise
    let x = match execute_callback(&mut queue, comps.get_mut(0), (0, 1), |task| task) {
        Started::Run { instance, promise, .. } => {
            assert!(!promise);
            instance
        }
        _ => panic!("the update has to run"),
    };
    // and within that, an update of Y: it is put off, twice, and nothing fails
    assert!(matches!(execute_callback(&mut queue, comps.get_mut(1), (1, 5), |task| task), Started::Deferred));
    assert!(matches!(execute_callback(&mut queue, comps.get_mut(1), (1, 6), |task| task), Started::Deferred));
    // so is an update of X while X is held
    assert!(matches!(execute_callback(&mut queue, comps.get_mut(0), (0, 2), |task| task), Started::Deferred));
    assert_eq!(*held.state(), 0);
    comps[0].release(x);
    // the update of Y ends its own work before the queue is run
    comps[1].release(held);
    drain(&mut queue, &mut comps, &mut log);
    assert_eq!(log, vec![(1, 5), (1, 6), (0, 2)]);
    assert_eq!(*comps[1].comp_instance().state(), 11);
    assert_eq!(*comps[0].comp_instance().state(), 2);
    // the queue is empty and the promise is free again
    assert!(queue.i_have_to_execute_update_queue());
    assert_eq!(queue.take(), None);
}

#[test]
fn update_of_a_component_that_is_gone_is_given_up() {
    let mut queue: UpdateQueue<u32> = UpdateQueue::new();
    let gone: Option<&mut Comp> = None;
    assert!(matches!(execute_callback(&mut queue, gone, 3, |task| task), Started::Dropped));
    // nothing was touched: the queue is empty and the promise is free
    assert_eq!(queue.take(), None);
    assert!(queue.i_have_to_execute_update_queue());
}

#[test]
fn updates_triggered_while_the_queue_runs_are_run_too() {
    let mut doc = Document::new();
    let mut queue: UpdateQueue<(usize, i32)> = UpdateQueue::new();
    let mut comps = vec![component(0, &mut doc)];
    let mut log = Vec::new();
    let held = match execute_callback(&mut queue, comps.get_mut(0), (0, 1), |task| task) {
        Started::Run { instance, .. } => instance,
        _ => panic!("the update has to run"),
    };
    assert!(matches!(execute_callback(&mut queue, comps.get_mut(0), (0, 2), |task| task), Started::Deferred));
    assert!(matches!(execute_callback(&mut queue, comps.get_mut(7), (7, 2), |task| task), Started::Dropped));
    update_component(&mut queue, (0, 3));
    comps[0].release(held);
    drain(&mut queue, &mut comps, &mut log);
    assert_eq!(log, vec![(0, 2), (0, 3)]);
    assert_eq!(*comps[0].comp_instance().state(), 5);
}

#[test]
fn child_component_is_mounted_rendered_and_unmounted() {
    let mut doc = Document::new();
    let host = doc.new_node();
    let mut child: CompInstance<i32, u32, u32> = CompInstance::with_root(None, &mut doc);
    // made without a root and never mounted
    assert!(matches!(child.mount_status, MountStatus::Never));
    assert!(!child.is_mounted());
    assert!(child.state.is_none());
    assert_eq!(
        doc.take_ops(),
        vec![DomOp::CreateElement { node: 1, namespace: None, tag: "div".to_string() }]
    );
    child.set_state(3);
    assert_eq!(*child.state(), 3);
    // mounting forces a render although nothing was rendered before
    {
        let (state, render) = child.mount_to(host, ElementType::Other, &mut doc);
        assert_eq!(*state, 3);
        assert_eq!(render.status(), ElementStatus::JustCreated);
        let mut nodes = render.nodes();
        nodes.update_text("three");
    }
    assert!(matches!(child.mount_status, MountStatus::Mounted));
    assert!(child.is_mounted());
    assert_eq!(child.root_element.ws_element, host);
    assert_eq!(
        doc.take_ops(),
        vec![
            DomOp::CreateText { node: 2, text: "three".to_string() },
            DomOp::InsertBefore { parent: 0, child: 2, next_sibling: None },
        ]
    );
    // the handle in the parent is dropped
    child.set_mount_status_to_unmounted();
    assert!(matches!(child.mount_status, MountStatus::Unmounted));
    assert!(!child.is_mounted());
    // mounting again puts what was rendered under the new root and renders
    {
        let (_, render) = child.mount_to(9, ElementType::Other, &mut doc);
        assert_eq!(render.status(), ElementStatus::Existing);
    }
    assert!(child.is_mounted());
    assert_eq!(
        doc.take_ops(),
        vec![DomOp::InsertBefore { parent: 9, child: 2, next_sibling: None }]
    );
    // detaching empties the root and forgets what was rendered there
    child.unmount(&mut doc);
    assert!(matches!(child.mount_status, MountStatus::Unmounted));
    assert!(child.root_element.is_empty());
    assert_eq!(doc.take_ops(), vec![DomOp::SetTextContent { node: 9, content: None }]);
    {
        let (_, render) = child.mount_to(9, ElementType::Other, &mut doc);
        assert_eq!(render.status(), ElementStatus::JustCreated);
    }
    assert_eq!(doc.take_ops(), vec![]);
    child.set_mount_status_to_unmounted();
    // the component itself is dropped: its root is emptied
    assert_eq!(child.detach(&mut doc), Some(3));
    assert_eq!(doc.take_ops(), vec![DomOp::SetTextContent { node: 9, content: None }]);
}

#[test]
fn update_renders_first_and_then_runs_the_commands_in_order() {
    let mut list: Checklist<u32> = Checklist::skip_render();
    list.add_command(7);
    list.add_command(8);
    let steps: Vec<Option<u32>> = list
        .into_steps()
        .into_iter()
        .map(|step| match step {
            UpdateStep::Render => None,
            UpdateStep::Command(command) => Some(command),
        })
        .collect();
    assert_eq!(steps, vec![Some(7), Some(8)]);
    let mut list: Checklist<u32> = Checklist::skip_render();
    list.add_command(1);
    list.add_option_command(Some(2));
    list.add_command(3);
    list.set_should_render();
    let steps: Vec<Option<u32>> = list
        .into_steps()
        .into_iter()
        .map(|step| match step {
            UpdateStep::Render => None,
            UpdateStep::Command(command) => Some(command),
        })
        .collect();
    assert_eq!(steps, vec![None, Some(1), Some(2), Some(3)]);
    let list: Checklist<u32> = Checklist::should_render();
    assert_eq!(list.into_steps().len(), 1);
    let list: Checklist<u32> = Checklist::skip_render();
    assert!(list.into_steps().is_empty());
}

#[test]
fn top_component_is_mounted_for_good() {
    let mut doc = Document::new();
    let root = doc.new_node();
    let mut app: CompInstance<i32, u32, u32> = CompInstance::with_root(Some((root, ElementType::Other)), &mut doc);
    assert!(matches!(app.mount_status, MountStatus::PermanentlyMounted));
    assert_eq!(doc.pending(), 0);
    assert!(!app.is_mounted());
    app.set_mount_status_to_unmounted();
    assert!(matches!(app.mount_status, MountStatus::PermanentlyMounted));
    app.set_state(1);
    {
        let _ = app.mount_to(root, ElementType::Other, &mut doc);
    }
    assert!(matches!(app.mount_status, MountStatus::PermanentlyMounted));
    app.window_event(4);
    app.window_event(5);
    assert_eq!(app.events, vec![4, 5]);
}

#[test]
fn first_render_renders_an_empty_root_only() {
    let mut doc = Document::new();
    let mut queue: UpdateQueue<u32> = UpdateQueue::new();
    let mut comp: Comp = RcComp::with_root(Some((doc.new_node(), ElementType::Other)), &mut doc);
    comp.set_state(1);
    let (mut instance, render, promise) = comp.first_render(&mut queue);
    assert!(render);
    assert!(promise);
    assert!(comp.is_borrowed());
    {
        let (state, walk) = instance.render(&mut doc);
        assert_eq!(*state, 1);
        assert_eq!(walk.status(), ElementStatus::JustCreated);
        walk.nodes().static_text("x");
    }
    // an update that is triggered meanwhile waits until the render is done
    assert!(matches!(execute_callback(&mut queue, Some(&mut comp), 5, |task| task), Started::Deferred));
    assert_eq!(comp.finish_update(&mut queue, instance, promise), Some(5));
    assert!(!comp.is_borrowed());
    assert_eq!(queue.execute_update_queue(promise), None);
    let (mut instance, render, promise) = comp.first_render(&mut queue);
    assert!(!render);
    assert!(promise);
    assert_eq!(instance.render(&mut doc).1.status(), ElementStatus::Existing);
    comp.release(instance);
    assert!(comp.try_borrow_mut().is_some());
    assert!(comp.try_borrow_mut().is_none());
}

#[test]
fn update_renders_only_when_asked_to() {
    let mut doc = Document::new();
    let mut comp: CompInstance<i32, u32, u32> = CompInstance::with_root(None, &mut doc);
    comp.set_state(0);
    doc.take_ops();
    assert!(comp.extra_update(ShouldRender::No, &mut doc).is_none());
    match comp.extra_update(ShouldRender::Yes, &mut doc) {
        Some((state, walk)) => {
            assert_eq!(*state, 0);
            assert_eq!(walk.status(), ElementStatus::JustCreated);
        }
        None => panic!("a render was asked for"),
    }
    assert_eq!(doc.pending(), 0);
}

#[test]
fn checklist_keeps_commands_in_order() {
    let list: Checklist<u32> = Checklist::should_render();
    assert!(matches!(list.into_parts(), (ShouldRender::Yes, commands) if commands.is_empty()));
    let list: Checklist<u32> = Checklist::skip_render();
    assert!(matches!(list.into_parts(), (ShouldRender::No, commands) if commands.is_empty()));
    let mut list: Checklist<u32> = Checklist::from(ShouldRender::No);
    list.add_command(1);
    list.add_option_command(None);
    list.add_option_command(Some(2));
    list.set_should_render();
    list.add_command(3);
    let (render, commands) = list.into_parts();
    assert_eq!(render, ShouldRender::Yes);
    assert_eq!(commands, vec![1, 2, 3]);
    let mut list: Checklist<u32> = Checklist::from(ShouldRender::Yes);
    list.set_skip_render();
    assert_eq!(list.into_parts().0, ShouldRender::No);
}

#[test]
fn putting_an_update_off_leaves_the_promise_where_it_is() {
    let mut doc = Document::new();
    let mut queue: UpdateQueue<u32> = UpdateQueue::new();
    let mut comp = component(0, &mut doc);
    // somebody holds the component while no update is in progress
    let held = comp.try_borrow_mut().expect("the component is free");
    assert!(matches!(execute_callback(&mut queue, Some(&mut comp), 1, |task| task), Started::Deferred));
    comp.release(held);
    // the promise is still free: the next update takes it, and runs what
    // was put off when it is done
    match execute_callback(&mut queue, Some(&mut comp), 2, |task| task) {
        Started::Run { task, instance, promise } => {
            assert_eq!(task, 2);
            assert!(promise);
            assert_eq!(comp.finish_update(&mut queue, instance, promise), Some(1));
        }
        _ => panic!("the update has to run"),
    }
    assert_eq!(queue.execute_update_queue(true), None);
    assert!(queue.i_have_to_execute_update_queue());
}
