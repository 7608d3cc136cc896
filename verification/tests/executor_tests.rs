use std::cell::RefCell;
use std::rc::Rc;

use blog_os::task::executor::{Action, Executor};
use blog_os::task::{Computation, Context, Poll, Task, TaskId, TaskIdCounter, Waker};

/// Records each poll under a label and completes after a set number of polls.
struct Scripted {
    label: u32,
    pending_polls: u32,
    log: Rc<RefCell<Vec<u32>>>,
}

impl Computation for Scripted {
    fn poll(&mut self, _context: &mut Context) -> Poll<()> {
        self.log.borrow_mut().push(self.label);
        if self.pending_polls == 0 {
            Poll::Ready(())
        } else {
            self.pending_polls -= 1;
            Poll::Pending
        }
    }
}

fn scripted(
    counter: &mut TaskIdCounter,
    label: u32,
    pending_polls: u32,
    log: &Rc<RefCell<Vec<u32>>>,
) -> Task {
    Task::new(counter, Box::new(Scripted { label, pending_polls, log: log.clone() }))
}

#[test]
fn new_executor_is_empty_and_idle() {
    let mut executor = Executor::new();
    assert_eq!(executor.task_count(), 0);
    assert_eq!(executor.ready_count(), 0);
    assert!(executor.is_idle());
    assert!(!executor.is_polling());
    assert!(matches!(executor.next_action(), Action::Halt));
    assert_eq!(executor.run_ready_task(), None);
    assert_eq!(executor.run_ready_tasks(), 0);
}

#[test]
fn spawn_stores_the_task_and_queues_it() {
    let log = Rc::new(RefCell::new(Vec::new()));
    let mut counter = TaskIdCounter::new();
    let mut executor = Executor::new();
    let task = scripted(&mut counter, 1, 0, &log);
    let id = task.id();
    assert!(!executor.contains(id));
    executor.spawn(task);
    assert!(executor.contains(id));
    assert!(executor.is_ready(id));
    assert!(!executor.has_waker(id));
    assert_eq!(executor.task_count(), 1);
    assert_eq!(executor.ready_count(), 1);
    assert!(!executor.is_idle());
    assert!(log.borrow().is_empty());
}

#[test]
fn ready_tasks_are_polled_in_spawn_order() {
    let log = Rc::new(RefCell::new(Vec::new()));
    let mut counter = TaskIdCounter::new();
    let mut executor = Executor::new();
    for label in [10, 20, 30, 40] {
        executor.spawn(scripted(&mut counter, label, 1, &log));
    }
    assert_eq!(executor.run_ready_tasks(), 4);
    assert_eq!(*log.borrow(), vec![10, 20, 30, 40]);
    assert!(executor.is_idle());
    assert_eq!(executor.task_count(), 4);
}

#[test]
fn completed_task_is_removed_with_its_waker() {
    let log = Rc::new(RefCell::new(Vec::new()));
    let mut counter = TaskIdCounter::new();
    let mut executor = Executor::new();
    let task = scripted(&mut counter, 1, 0, &log);
    let id = task.id();
    executor.spawn(task);
    assert_eq!(executor.run_ready_task(), Some((id, Poll::Ready(()))));
    assert!(!executor.contains(id));
    assert!(!executor.is_ready(id));
    assert!(!executor.has_waker(id));
    assert_eq!(executor.task_count(), 0);
    assert!(executor.is_idle());
}

#[test]
fn suspended_task_is_kept_with_a_cached_waker() {
    let log = Rc::new(RefCell::new(Vec::new()));
    let mut counter = TaskIdCounter::new();
    let mut executor = Executor::new();
    let task = scripted(&mut counter, 1, 5, &log);
    let id = task.id();
    executor.spawn(task);
    assert_eq!(executor.run_ready_task(), Some((id, Poll::Pending)));
    assert!(executor.contains(id));
    assert!(!executor.is_ready(id));
    assert!(executor.has_waker(id));
    assert_eq!(executor.task_count(), 1);
}

#[test]
fn task_that_suspends_without_a_wake_is_never_polled_again() {
    let log = Rc::new(RefCell::new(Vec::new()));
    let mut counter = TaskIdCounter::new();
    let mut executor = Executor::new();
    let sleeper = scripted(&mut counter, 1, 100, &log);
    let sleeper_id = sleeper.id();
    executor.spawn(sleeper);
    assert_eq!(executor.run_ready_tasks(), 1);
    // Other tasks come and go and are woken; the sleeper is left alone.
    let busy = scripted(&mut counter, 2, 100, &log);
    let busy_waker = Waker::new(busy.id());
    executor.spawn(busy);
    for _ in 0..10 {
        executor.run_ready_tasks();
        executor.wake(&busy_waker);
        assert!(!executor.is_ready(sleeper_id));
    }
    executor.run_ready_tasks();
    let polls_of_sleeper = log.borrow().iter().filter(|label| **label == 1).count();
    assert_eq!(polls_of_sleeper, 1);
    assert_eq!(log.borrow().iter().filter(|label| **label == 2).count(), 11);
    assert!(executor.contains(sleeper_id));
}

#[test]
fn many_wakes_make_one_ready_entry() {
    let log = Rc::new(RefCell::new(Vec::new()));
    let mut counter = TaskIdCounter::new();
    let mut executor = Executor::new();
    let task = scripted(&mut counter, 1, 100, &log);
    let id = task.id();
    let waker = Waker::new(id);
    executor.spawn(task);
    executor.run_ready_tasks();
    assert_eq!(executor.ready_count(), 0);
    for _ in 0..25 {
        executor.wake(&waker);
        assert_eq!(executor.ready_count(), 1);
        assert!(executor.is_ready(id));
    }
    assert_eq!(executor.run_ready_tasks(), 1);
    assert_eq!(log.borrow().len(), 2);
    assert_eq!(executor.ready_count(), 0);
}

#[test]
fn wake_of_a_freshly_spawned_task_does_not_queue_it_twice() {
    let log = Rc::new(RefCell::new(Vec::new()));
    let mut counter = TaskIdCounter::new();
    let mut executor = Executor::new();
    let task = scripted(&mut counter, 1, 0, &log);
    let waker = Waker::new(task.id());
    executor.spawn(task);
    executor.wake(&waker);
    assert_eq!(executor.ready_count(), 1);
}

#[test]
fn woken_tasks_run_in_wake_order() {
    let log = Rc::new(RefCell::new(Vec::new()));
    let mut counter = TaskIdCounter::new();
    let mut executor = Executor::new();
    let mut wakers = Vec::new();
    for label in [1, 2, 3] {
        let task = scripted(&mut counter, label, 100, &log);
        wakers.push(Waker::new(task.id()));
        executor.spawn(task);
    }
    executor.run_ready_tasks();
    log.borrow_mut().clear();
    executor.wake(&wakers[2]);
    executor.wake(&wakers[0]);
    executor.wake(&wakers[2]);
    executor.wake(&wakers[1]);
    assert_eq!(executor.ready_count(), 3);
    assert_eq!(executor.run_ready_tasks(), 3);
    assert_eq!(*log.borrow(), vec![3, 1, 2]);
}

#[test]
fn wake_of_a_completed_task_does_nothing() {
    let log = Rc::new(RefCell::new(Vec::new()));
    let mut counter = TaskIdCounter::new();
    let mut executor = Executor::new();
    let task = scripted(&mut counter, 1, 0, &log);
    let waker = Waker::new(task.id());
    executor.spawn(task);
    executor.run_ready_tasks();
    executor.wake(&waker);
    assert_eq!(executor.ready_count(), 0);
    assert!(executor.is_idle());
    assert!(matches!(executor.next_action(), Action::Halt));
}

#[test]
fn wake_of_an_unknown_task_does_nothing() {
    let mut counter = TaskIdCounter::new();
    let mut executor = Executor::new();
    let stranger = Waker::new(TaskId::new(&mut counter));
    executor.wake(&stranger);
    assert_eq!(executor.ready_count(), 0);
    assert!(executor.is_idle());
}

#[test]
fn next_action_hands_out_the_front_task_with_its_waker() {
    let log = Rc::new(RefCell::new(Vec::new()));
    let mut counter = TaskIdCounter::new();
    let mut executor = Executor::new();
    let first = scripted(&mut counter, 1, 1, &log);
    let second = scripted(&mut counter, 2, 1, &log);
    let first_id = first.id();
    let second_id = second.id();
    executor.spawn(first);
    executor.spawn(second);
    match executor.next_action() {
        Action::Poll(mut task, mut context) => {
            assert_eq!(task.id(), first_id);
            assert_eq!(context.waker(), Waker::new(first_id));
            assert!(executor.is_polling());
            assert!(executor.contains(first_id));
            assert!(!executor.is_ready(first_id));
            assert!(executor.has_waker(first_id));
            assert_eq!(executor.task_count(), 1);
            assert!(executor.is_ready(second_id));
            let outcome = task.poll(&mut context);
            assert_eq!(outcome, Poll::Pending);
            executor.finish_poll(task, outcome);
        }
        Action::Halt => panic!("a task was ready"),
    }
    assert!(!executor.is_polling());
    assert_eq!(executor.task_count(), 2);
    assert!(!executor.is_ready(first_id));
    assert_eq!(*log.borrow(), vec![1]);
}

#[test]
fn wake_during_a_poll_requeues_a_task_that_suspends() {
    let log = Rc::new(RefCell::new(Vec::new()));
    let mut counter = TaskIdCounter::new();
    let mut executor = Executor::new();
    let task = scripted(&mut counter, 1, 3, &log);
    let id = task.id();
    executor.spawn(task);
    match executor.next_action() {
        Action::Poll(mut task, mut context) => {
            let waker = context.waker();
            let outcome = task.poll(&mut context);
            // An interrupt wakes the task while it is still being polled.
            executor.wake(&waker);
            executor.wake(&waker);
            assert_eq!(executor.ready_count(), 1);
            executor.finish_poll(task, outcome);
        }
        Action::Halt => panic!("a task was ready"),
    }
    assert!(executor.is_ready(id));
    assert_eq!(executor.ready_count(), 1);
    assert_eq!(executor.run_ready_tasks(), 1);
    assert_eq!(log.borrow().len(), 2);
}

#[test]
fn wake_during_a_poll_is_dropped_when_the_task_completes() {
    let log = Rc::new(RefCell::new(Vec::new()));
    let mut counter = TaskIdCounter::new();
    let mut executor = Executor::new();
    let finishing = scripted(&mut counter, 1, 0, &log);
    let other = scripted(&mut counter, 2, 1, &log);
    let id = finishing.id();
    let other_id = other.id();
    executor.spawn(finishing);
    executor.spawn(other);
    match executor.next_action() {
        Action::Poll(mut task, mut context) => {
            let waker = context.waker();
            let outcome = task.poll(&mut context);
            executor.wake(&waker);
            assert_eq!(executor.ready_count(), 2);
            executor.finish_poll(task, outcome);
        }
        Action::Halt => panic!("a task was ready"),
    }
    assert!(!executor.contains(id));
    assert!(!executor.is_ready(id));
    assert!(!executor.has_waker(id));
    assert_eq!(executor.ready_count(), 1);
    assert!(executor.is_ready(other_id));
    assert_eq!(executor.run_ready_tasks(), 1);
    assert_eq!(*log.borrow(), vec![1, 2]);
}

#[test]
fn idle_executor_halts_once_per_iteration_and_stays_unchanged() {
    let log = Rc::new(RefCell::new(Vec::new()));
    let mut counter = TaskIdCounter::new();
    let mut executor = Executor::new();
    let task = scripted(&mut counter, 1, 100, &log);
    let id = task.id();
    executor.spawn(task);
    executor.run_ready_tasks();
    let mut halts = 0;
    for _ in 0..5 {
        assert!(executor.is_idle());
        match executor.next_action() {
            Action::Halt => halts += 1,
            Action::Poll(..) => panic!("nothing was ready"),
        }
        assert_eq!(executor.task_count(), 1);
        assert_eq!(executor.ready_count(), 0);
        assert!(executor.contains(id));
        assert!(!executor.is_polling());
    }
    assert_eq!(halts, 5);
    assert_eq!(log.borrow().len(), 1);
}

#[test]
fn immediate_task_leaves_and_long_running_task_stays() {
    let log = Rc::new(RefCell::new(Vec::new()));
    let mut counter = TaskIdCounter::new();
    let mut executor = Executor::new();
    let immediate = scripted(&mut counter, 42, 0, &log);
    let consumer = scripted(&mut counter, 7, u32::MAX, &log);
    let immediate_id = immediate.id();
    let consumer_id = consumer.id();
    let immediate_waker = Waker::new(immediate_id);
    let consumer_waker = Waker::new(consumer_id);
    executor.spawn(immediate);
    executor.spawn(consumer);
    assert_eq!(executor.run_ready_task(), Some((immediate_id, Poll::Ready(()))));
    assert!(!executor.contains(immediate_id));
    assert_eq!(executor.task_count(), 1);
    assert_eq!(executor.run_ready_task(), Some((consumer_id, Poll::Pending)));
    assert_eq!(executor.run_ready_task(), None);
    for _ in 0..20 {
        executor.wake(&consumer_waker);
        executor.wake(&immediate_waker);
        assert!(!executor.is_ready(immediate_id));
        assert_eq!(executor.ready_count(), 1);
        assert_eq!(executor.run_ready_tasks(), 1);
        assert!(!executor.contains(immediate_id));
        assert!(executor.contains(consumer_id));
    }
    assert_eq!(log.borrow().iter().filter(|label| **label == 42).count(), 1);
    assert_eq!(log.borrow().iter().filter(|label| **label == 7).count(), 21);
}

#[test]
fn task_is_polled_until_it_completes_when_woken_each_time() {
    let log = Rc::new(RefCell::new(Vec::new()));
    let mut counter = TaskIdCounter::new();
    let mut executor = Executor::new();
    let task = scripted(&mut counter, 1, 3, &log);
    let id = task.id();
    let waker = Waker::new(id);
    executor.spawn(task);
    assert_eq!(executor.run_ready_task(), Some((id, Poll::Pending)));
    executor.wake(&waker);
    assert_eq!(executor.run_ready_task(), Some((id, Poll::Pending)));
    executor.wake(&waker);
    assert_eq!(executor.run_ready_task(), Some((id, Poll::Pending)));
    executor.wake(&waker);
    assert_eq!(executor.run_ready_task(), Some((id, Poll::Ready(()))));
    executor.wake(&waker);
    assert_eq!(executor.run_ready_task(), None);
    assert_eq!(log.borrow().len(), 4);
}
