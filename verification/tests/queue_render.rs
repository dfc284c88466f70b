use spair::queue_render::Diff;
use spair::queue_render::ListRender;
use spair::queue_render::QrVec;
use spair::queue_render::QrVecContent;

struct Counter {
    calls: usize,
    seen: usize,
}

impl ListRender<u32> for Counter {
    fn render(&mut self, items: &Vec<u32>, diffs: &Vec<Diff<u32>>) {
        self.calls += 1;
        self.seen += items.len() + diffs.len();
    }

    fn unmounted(&self) -> bool {
        false
    }
}

#[test]
fn one_render_is_queued_for_many_changes() {
    let mut content: QrVecContent<u32, Counter> = QrVecContent::new();
    content.add_render(Counter { calls: 0, seen: 0 });
    content.add_render(Counter { calls: 0, seen: 0 });
    // the first change asks for a render, the next ones do not
    assert!(content.queue_me());
    assert!(!content.queue_me());
    assert!(!content.queue_me());
    // the render runs: the next change asks again
    content.render();
    assert_eq!(content.renders().iter().map(|r| r.calls).collect::<Vec<_>>(), vec![1, 1]);
    assert!(content.renders().iter().all(|r| !r.unmounted() && r.seen == 0));
    assert!(content.queue_me());
    content.render();
    content.render();
    assert_eq!(content.renders().iter().map(|r| r.calls).collect::<Vec<_>>(), vec![3, 3]);
    assert!(content.queue_me());
    assert!(content.values().is_empty());
}

#[test]
fn list_that_renders_itself_starts_empty() {
    let mut list: QrVec<u32, Counter> = QrVec::new();
    assert_eq!(list.pop(), None);
    assert!(list.queue_me());
    assert!(!list.queue_me());
    list.0.add_render(Counter { calls: 0, seen: 0 });
    list.render();
    assert_eq!(list.content().renders()[0].calls, 1);
    assert!(list.queue_me());
}
