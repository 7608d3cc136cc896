use blog_os::task::{Computation, Context, Poll, Task, TaskId, TaskIdCounter, Waker};

struct Countdown {
    polls_left: u32,
}

impl Computation for Countdown {
    fn poll(&mut self, _context: &mut Context) -> Poll<()> {
        if self.polls_left == 0 {
            Poll::Ready(())
        } else {
            self.polls_left -= 1;
            Poll::Pending
        }
    }
}

#[test]
fn task_ids_start_at_zero_and_increase() {
    let mut counter = TaskIdCounter::new();
    assert!(!counter.exhausted());
    let a = TaskId::new(&mut counter);
    let b = TaskId::new(&mut counter);
    let c = TaskId::new(&mut counter);
    assert_eq!(a.as_u64(), 0);
    assert_eq!(b.as_u64(), 1);
    assert_eq!(c.as_u64(), 2);
    assert!(a < b && b < c);
    assert_ne!(a, b);
}

#[test]
fn task_ids_are_never_reused() {
    let mut counter = TaskIdCounter::new();
    let mut seen: Vec<u64> = Vec::new();
    for _ in 0..1000 {
        let id = TaskId::new(&mut counter).as_u64();
        assert!(!seen.contains(&id));
        seen.push(id);
    }
}

#[test]
fn new_tasks_get_fresh_ids() {
    let mut counter = TaskIdCounter::new();
    let first = Task::new(&mut counter, Box::new(Countdown { polls_left: 0 }));
    let second = Task::new(&mut counter, Box::new(Countdown { polls_left: 0 }));
    assert_eq!(first.id().as_u64(), 0);
    assert_eq!(second.id().as_u64(), 1);
    assert_eq!(TaskId::new(&mut counter).as_u64(), 2);
}

#[test]
fn poll_reports_what_the_computation_reports() {
    let mut counter = TaskIdCounter::new();
    let mut task = Task::new(&mut counter, Box::new(Countdown { polls_left: 2 }));
    let id = task.id();
    let mut context = Context::from_waker(Waker::new(id));
    assert_eq!(task.poll(&mut context), Poll::Pending);
    assert_eq!(task.poll(&mut context), Poll::Pending);
    assert_eq!(task.poll(&mut context), Poll::Ready(()));
    assert_eq!(task.id(), id);
}

#[test]
fn poll_predicates() {
    assert!(Poll::Ready(3u8).is_ready());
    assert!(!Poll::Ready(3u8).is_pending());
    assert!(Poll::<u8>::Pending.is_pending());
    assert!(!Poll::<u8>::Pending.is_ready());
}

#[test]
fn waker_and_context_carry_the_task() {
    let mut counter = TaskIdCounter::new();
    TaskId::new(&mut counter);
    let id = TaskId::new(&mut counter);
    let waker = Waker::new(id);
    assert_eq!(waker.task_id(), id);
    let context = Context::from_waker(waker);
    assert_eq!(context.waker(), waker);
    assert_eq!(context.waker().task_id().as_u64(), 1);
}
