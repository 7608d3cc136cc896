//! The executor: it owns every spawned task, keeps the queue of tasks that are
//! ready to be polled, and caches one wake handle per task.
//!
//! The executor never halts the processor and never runs forever itself. Its
//! caller drives it: [`Executor::next_action`] says whether to poll a task or
//! to halt until the next interrupt, and [`Executor::finish_poll`] takes the
//! task back with the outcome of its poll.

use std::collections::BTreeMap;
use std::collections::VecDeque;
use vstd::prelude::*;
use crate::task::{Context, Poll, Task, TaskId, Waker};

verus! {

/// The state of an executor as contracts see it. Tasks are named by the
/// number of their identifier.
#[verifier::ext_equal]
pub struct ExecutorView {
    /// The task collection: every spawned task that has not completed and is
    /// not being polled right now, under its identifier.
    pub tasks: Map<u64, Task>,
    /// The ready queue, next task to poll first.
    pub ready: Seq<u64>,
    /// The waker registry: the tasks for which a wake handle is cached.
    pub wakers: Set<u64>,
    /// The task that has been handed out for polling and not come back yet.
    pub running: Option<u64>,
}

impl ExecutorView {
    /// A task is live from its spawn until it completes: it is either in the
    /// task collection or out for polling.
    pub open spec fn live(self, id: u64) -> bool {
        self.tasks.contains_key(id) || self.running == Some(id)
    }

    /// A task is parked when it sits in the task collection and is not queued
    /// for polling: it waits for a wake.
    pub open spec fn parked(self, id: u64) -> bool {
        self.tasks.contains_key(id) && !self.ready.contains(id)
    }

    /// The states that an executor can be in: each stored task sits under its
    /// own identifier; the ready queue names no task twice and only live
    /// tasks; wake handles are cached for live tasks only; the task that is
    /// out for polling is not in the collection at the same time.
    pub open spec fn wf(self) -> bool {
        &&& forall|id: u64| #[trigger]
            self.tasks.contains_key(id) ==> self.tasks[id].id()@ == id
        &&& self.ready.no_duplicates()
        &&& forall|i: int| 0 <= i < self.ready.len() ==> self.live(#[trigger] self.ready[i])
        &&& forall|id: u64| #[trigger] self.wakers.contains(id) ==> self.live(id)
        &&& self.running matches Some(id) ==> !self.tasks.contains_key(id)
    }

    /// The executor with no task.
    pub open spec fn empty() -> ExecutorView {
        ExecutorView { tasks: Map::empty(), ready: Seq::empty(), wakers: Set::empty(), running: None }
    }

    /// The executor after `task` was spawned: the task is stored and its
    /// identifier stands at the back of the ready queue.
    pub open spec fn spawn(self, task: Task) -> ExecutorView {
        ExecutorView {
            tasks: self.tasks.insert(task.id()@, task),
            ready: self.ready.push(task.id()@),
            ..self
        }
    }

    /// The executor after the wake handle of task `id` was invoked: a live
    /// task that is not queued yet goes to the back of the ready queue; in
    /// every other case nothing changes.
    pub open spec fn wake(self, id: u64) -> ExecutorView {
        if self.live(id) && !self.ready.contains(id) {
            ExecutorView { ready: self.ready.push(id), ..self }
        } else {
            self
        }
    }

    /// The executor after `count` invocations of the wake handle of task `id`.
    pub open spec fn wake_times(self, id: u64, count: nat) -> ExecutorView
        decreases count,
    {
        if count == 0 {
            self
        } else {
            self.wake(id).wake_times(id, (count - 1) as nat)
        }
    }

    /// Whether there is a task to poll.
    pub open spec fn has_ready(self) -> bool {
        self.ready.len() > 0
    }

    /// The executor after the task at the front of the ready queue was handed
    /// out for polling: it has left the queue and the collection, and a wake
    /// handle is cached for it.
    pub open spec fn start(self) -> ExecutorView {
        let id = self.ready[0];
        ExecutorView {
            tasks: self.tasks.remove(id),
            ready: self.ready.drop_first(),
            wakers: self.wakers.insert(id),
            running: Some(id),
        }
    }

    /// The ready queue without task `id`.
    pub open spec fn ready_without(self, id: u64) -> Seq<u64> {
        if self.ready.contains(id) {
            self.ready.remove(self.ready.index_of(id))
        } else {
            self.ready
        }
    }

    /// The executor after `task` came back from its poll with `outcome`. A
    /// completed task is dropped together with its cached wake handle and with
    /// any entry that a wake during the poll left in the ready queue. A
    /// suspended task returns to the collection and is not queued by that.
    pub open spec fn finish(self, task: Task, outcome: Poll<()>) -> ExecutorView {
        let id = task.id()@;
        match outcome {
            Poll::Ready(_) => ExecutorView {
                tasks: self.tasks,
                ready: self.ready_without(id),
                wakers: self.wakers.remove(id),
                running: None,
            },
            Poll::Pending => ExecutorView {
                tasks: self.tasks.insert(id, task),
                running: None,
                ..self
            },
        }
    }
}

/// What the caller of the executor has to do next.
pub enum Action {
    /// Poll the task with the context given, then report back through
    /// [`Executor::finish_poll`].
    Poll(Task, Context),
    /// Nothing is ready: halt the processor until the next interrupt.
    Halt,
}

/// The executor.
pub struct Executor {
    tasks: BTreeMap<u64, Task>,
    ready: VecDeque<u64>,
    wakers: BTreeMap<u64, Waker>,
    running: Option<u64>,
}

impl View for Executor {
    type V = ExecutorView;

    closed spec fn view(&self) -> ExecutorView {
        ExecutorView {
            tasks: self.tasks@,
            ready: self.ready@,
            wakers: self.wakers@.dom(),
            running: self.running,
        }
    }
}

impl Executor {
    /// The invariant of the executor. Every constructor establishes it and
    /// every method keeps it.
    pub closed spec fn well_formed(&self) -> bool {
        &&& self@.wf()
        &&& forall|id: u64| #[trigger]
            self.wakers@.contains_key(id) ==> self.wakers@[id]@ == id
    }

    /// An executor with no task.
    pub fn new() -> (executor: Executor)
        ensures
            executor.well_formed(),
            executor@ == ExecutorView::empty(),
    {
        let executor = Executor {
            tasks: BTreeMap::new(),
            ready: VecDeque::new(),
            wakers: BTreeMap::new(),
            running: None,
        };
        assert(executor@.wakers =~= Set::<u64>::empty());
        executor
    }

    /// Whether a task with this identifier has been spawned and has not
    /// completed.
    pub fn contains(&self, id: TaskId) -> (live: bool)
        ensures
            live == self@.live(id@),
    {
        let key: u64 = id.as_u64();
        if self.tasks.contains_key(&key) {
            true
        } else {
            match self.running {
                Some(running) => running == key,
                None => false,
            }
        }
    }

    /// Where in the ready queue task `id` stands, if it is queued.
    fn position(&self, id: u64) -> (position: Option<usize>)
        ensures
            match position {
                Some(index) => index < self@.ready.len() && self@.ready[index as int] == id,
                None => !self@.ready.contains(id),
            },
    {
        let mut index: usize = 0;
        while index < self.ready.len()
            invariant
                index <= self.ready@.len(),
                forall|i: int| 0 <= i < index ==> self.ready@[i] != id,
            decreases self.ready@.len() - index,
        {
            if self.ready[index] == id {
                return Some(index);
            }
            index = index + 1;
        }
        None
    }

    /// Whether task `id` stands in the ready queue.
    pub fn is_ready(&self, id: TaskId) -> (queued: bool)
        ensures
            queued == self@.ready.contains(id@),
    {
        self.position(id.as_u64()).is_some()
    }

    /// Whether a wake handle is cached for task `id`.
    pub fn has_waker(&self, id: TaskId) -> (cached: bool)
        ensures
            cached == self@.wakers.contains(id@),
    {
        let key: u64 = id.as_u64();
        self.wakers.contains_key(&key)
    }

    /// The number of tasks in the task collection.
    pub fn task_count(&self) -> (count: usize)
        ensures
            count == self@.tasks.len(),
    {
        self.tasks.len()
    }

    /// The number of entries of the ready queue.
    pub fn ready_count(&self) -> (count: usize)
        ensures
            count == self@.ready.len(),
    {
        self.ready.len()
    }

    /// Whether a task is out for polling.
    pub fn is_polling(&self) -> (polling: bool)
        ensures
            polling == self@.running.is_some(),
    {
        self.running.is_some()
    }

    /// Whether task `id` is the one that is out for polling.
    pub fn is_polling_task(&self, id: TaskId) -> (polling: bool)
        ensures
            polling == (self@.running == Some(id@)),
    {
        match self.running {
            Some(running) => running == id.as_u64(),
            None => false,
        }
    }

    /// Whether nothing is ready to be polled, so that the processor may halt.
    pub fn is_idle(&self) -> (idle: bool)
        ensures
            idle == !self@.has_ready(),
    {
        self.ready.len() == 0
    }

    /// Takes ownership of `task`, stores it and queues it for its first poll.
    /// The identifier of the task must not be in use by a live task.
    ///
    /// Room in the ready queue is reserved here, one place per live task, so
    /// that a wake, which may come from an interrupt handler, finds its place
    /// ready and has nothing to allocate.
    pub fn spawn(&mut self, task: Task)
        requires
            old(self).well_formed(),
            !old(self)@.live(task.id()@),
        ensures
            final(self).well_formed(),
            final(self)@ == old(self)@.spawn(task),
    {
        let id: u64 = task.id().as_u64();
        proof {
            if old(self)@.ready.contains(id) {
                let i = old(self)@.ready.index_of(id);
                assert(old(self)@.live(old(self)@.ready[i]));
            }
        }
        self.tasks.insert(id, task);
        let live: usize = self.tasks.len().saturating_add(1);
        self.ready.reserve(live.saturating_sub(self.ready.len()));
        self.ready.push_back(id);
        proof {
            let before = old(self)@;
            let after = final(self)@;
            assert(after.wakers =~= before.wakers);
            assert forall|i: int| 0 <= i < after.ready.len() implies after.live(
                #[trigger] after.ready[i],
            ) by {
                if i < before.ready.len() {
                    assert(before.live(before.ready[i]));
                }
            }
        }
    }

    /// Invokes a wake handle: the task it is bound to becomes ready. A task
    /// that is already queued is not queued twice, and a handle whose task has
    /// completed does nothing.
    pub fn wake(&mut self, waker: &Waker)
        requires
            old(self).well_formed(),
        ensures
            final(self).well_formed(),
            final(self)@ == old(self)@.wake(waker@),
    {
        let id: u64 = waker.task_id().as_u64();
        if self.contains(waker.task_id()) && self.position(id).is_none() {
            self.ready.push_back(id);
            proof {
                let before = old(self)@;
                let after = final(self)@;
                assert(after.wakers =~= before.wakers);
                assert forall|i: int| 0 <= i < after.ready.len() implies after.live(
                    #[trigger] after.ready[i],
                ) by {
                    if i < before.ready.len() {
                        assert(before.live(before.ready[i]));
                    }
                }
            }
        }
    }

    /// Decides what the run loop does next. With an empty ready queue the
    /// answer is to halt, and nothing changes. Otherwise the task at the front
    /// of the queue is handed out, together with a context that carries its
    /// wake handle; the handle is made on the task's first poll and reused on
    /// every later one.
    pub fn next_action(&mut self) -> (action: Action)
        requires
            old(self).well_formed(),
            old(self)@.running is None,
        ensures
            final(self).well_formed(),
            !old(self)@.has_ready() ==> action is Halt && final(self)@ == old(self)@,
            old(self)@.has_ready() ==> final(self)@ == old(self)@.start() && (action matches Action::Poll(
                task,
                context,
            ) && task == old(self)@.tasks[old(self)@.ready[0]] && context.waker()@
                == old(self)@.ready[0]),
    {
        let id: u64 = match self.ready.pop_front() {
            Some(id) => id,
            None => {
                assert(final(self)@ =~= old(self)@);
                return Action::Halt;
            },
        };
        proof {
            assert(old(self)@.live(old(self)@.ready[0]));
        }
        let task: Task = match self.tasks.remove(&id) {
            Some(task) => task,
            None => {
                // A queued task is always in the collection.
                proof {
                    assert(false);
                }
                return Action::Halt;
            },
        };
        let waker: Waker = match self.wakers.get(&id) {
            Some(cached) => *cached,
            None => {
                let made = Waker::new(task.id());
                self.wakers.insert(id, made);
                made
            },
        };
        self.running = Some(id);
        proof {
            let before = old(self)@;
            let after = final(self)@;
            assert(after.ready =~= before.ready.drop_first());
            assert(after.wakers =~= before.wakers.insert(id));
            assert forall|i: int| 0 <= i < after.ready.len() implies after.live(
                #[trigger] after.ready[i],
            ) by {
                assert(before.live(before.ready[i + 1]));
            }
            assert forall|j: u64| #[trigger] after.wakers.contains(j) implies after.live(j) by {
                if j != id {
                    assert(before.wakers.contains(j));
                }
            }
        }
        Action::Poll(task, Context::from_waker(waker))
    }

    /// Takes `task` back after its poll. If it completed, it is dropped, its
    /// cached wake handle is removed, and so is an entry that a wake during
    /// the poll may have left in the ready queue. If it suspended, it returns
    /// to the task collection and waits there for a wake.
    pub fn finish_poll(&mut self, task: Task, outcome: Poll<()>)
        requires
            old(self).well_formed(),
            old(self)@.running == Some(task.id()@),
        ensures
            final(self).well_formed(),
            final(self)@ == old(self)@.finish(task, outcome),
    {
        let id: u64 = task.id().as_u64();
        match outcome {
            Poll::Ready(_) => {
                self.wakers.remove(&id);
                match self.position(id) {
                    Some(index) => {
                        proof {
                            let ready = old(self)@.ready;
                            assert(ready.contains(id));
                            assert(ready.index_of(id) == index);
                        }
                        self.ready.remove(index);
                    },
                    None => {},
                }
                self.running = None;
                proof {
                    let before = old(self)@;
                    let after = final(self)@;
                    assert(after.wakers =~= before.wakers.remove(id));
                    assert(after.ready =~= before.ready_without(id));
                    assert(after.tasks =~= before.tasks);
                    lemma_ready_without(before, id);
                }
            },
            Poll::Pending => {
                self.tasks.insert(id, task);
                self.running = None;
                proof {
                    let before = old(self)@;
                    let after = final(self)@;
                    assert(after.wakers =~= before.wakers);
                    assert forall|i: int| 0 <= i < after.ready.len() implies after.live(
                        #[trigger] after.ready[i],
                    ) by {
                        assert(before.live(before.ready[i]));
                    }
                }
            },
        }
    }

    /// Polls the task at the front of the ready queue once and takes it back
    /// with the outcome, all in one step. Returns which task was polled and
    /// how its poll ended, or `None` when nothing was ready.
    pub fn run_ready_task(&mut self) -> (polled: Option<(TaskId, Poll<()>)>)
        requires
            old(self).well_formed(),
            old(self)@.running is None,
        ensures
            final(self).well_formed(),
            final(self)@.running is None,
            !old(self)@.has_ready() ==> polled is None && final(self)@ == old(self)@,
            old(self)@.has_ready() ==> (polled matches Some((id, outcome)) && id@
                == old(self)@.ready[0] && exists|task: Task|
                task.id() == id && final(self)@ == #[trigger] old(self)@.start().finish(
                    task,
                    outcome,
                )),
    {
        match self.next_action() {
            Action::Halt => None,
            Action::Poll(task, context) => {
                let mut task = task;
                let mut context = context;
                let id = task.id();
                let outcome = task.poll(&mut context);
                let completed = outcome.is_ready();
                let ghost polled_task = task;
                let ghost reported = outcome;
                self.finish_poll(task, outcome);
                assert(self@ == old(self)@.start().finish(polled_task, reported));
                if completed {
                    assert(self@ == old(self)@.start().finish(polled_task, Poll::Ready(())));
                    Some((id, Poll::Ready(())))
                } else {
                    assert(self@ == old(self)@.start().finish(polled_task, Poll::Pending));
                    Some((id, Poll::Pending))
                }
            },
        }
    }

    /// Polls every task that stands in the ready queue, front to back, each
    /// exactly once, and returns how many that were. Afterwards the queue is
    /// empty. Tasks that were parked are not touched, and no task appears that
    /// was not there before.
    pub fn run_ready_tasks(&mut self) -> (polls: usize)
        requires
            old(self).well_formed(),
            old(self)@.running is None,
        ensures
            final(self).well_formed(),
            final(self)@.running is None,
            !final(self)@.has_ready(),
            polls == old(self)@.ready.len(),
            forall|id: u64| #[trigger]
                final(self)@.tasks.contains_key(id) ==> old(self)@.tasks.contains_key(id),
            forall|id: u64|
                old(self)@.parked(id) ==> #[trigger] final(self)@.parked(id)
                    && final(self)@.tasks[id] == old(self)@.tasks[id],
            forall|id: u64|
                !old(self)@.ready.contains(id) ==> (#[trigger] final(self)@.wakers.contains(id)
                    <==> old(self)@.wakers.contains(id)),
            forall|id: u64|
                old(self)@.ready.contains(id) ==> (#[trigger] final(self)@.wakers.contains(id)
                    <==> final(self)@.tasks.contains_key(id)),
    {
        let ghost initial = self@;
        let total: usize = self.ready.len();
        let mut polls: usize = 0;
        while self.ready.len() > 0
            invariant
                self.well_formed(),
                self@.running is None,
                initial.ready.len() == total,
                initial.ready.no_duplicates(),
                polls + self@.ready.len() == total,
                self@.ready == initial.ready.subrange(polls as int, total as int),
                forall|id: u64| #[trigger]
                    self@.tasks.contains_key(id) ==> initial.tasks.contains_key(id),
                forall|id: u64| #[trigger]
                    initial.parked(id) ==> self@.tasks.contains_key(id) && self@.tasks[id]
                        == initial.tasks[id],
                forall|id: u64|
                    !initial.ready.contains(id) ==> (#[trigger] self@.wakers.contains(id)
                        <==> initial.wakers.contains(id)),
                forall|i: int|
                    0 <= i < polls ==> (self@.wakers.contains(#[trigger] initial.ready[i])
                        <==> self@.tasks.contains_key(initial.ready[i])),
                forall|i: int|
                    polls <= i < total ==> self@.tasks.contains_key(#[trigger] initial.ready[i]),
            decreases self@.ready.len(),
        {
            let ghost before = self@;
            let polled = self.run_ready_task();
            proof {
                let front = before.ready[0];
                assert(front == initial.ready[polls as int]);
                assert(self@.ready =~= before.ready.drop_first()) by {
                    if before.ready.drop_first().contains(front) {
                        let i = before.ready.drop_first().index_of(front);
                        assert(before.ready[i + 1] == front);
                    }
                }
                assert(self@.ready =~= initial.ready.subrange(polls as int + 1, total as int));
                assert forall|id: u64| #[trigger] initial.parked(id) implies self@.tasks.contains_key(
                    id,
                ) && self@.tasks[id] == initial.tasks[id] by {
                    assert(before.tasks.contains_key(id) && before.tasks[id] == initial.tasks[id]);
                    assert(front != id);
                }
                assert forall|id: u64| !initial.ready.contains(id) implies (
                #[trigger] self@.wakers.contains(id) <==> initial.wakers.contains(id)) by {
                    assert(front != id);
                    assert(before.wakers.contains(id) <==> initial.wakers.contains(id));
                }
                assert forall|i: int| 0 <= i < polls + 1 implies (self@.wakers.contains(
                    #[trigger] initial.ready[i],
                ) <==> self@.tasks.contains_key(initial.ready[i])) by {
                    if i < polls {
                        assert(initial.ready[i] != front);
                        assert(before.wakers.contains(initial.ready[i])
                            <==> before.tasks.contains_key(initial.ready[i]));
                    }
                }
                assert forall|i: int| polls + 1 <= i < total implies self@.tasks.contains_key(
                    #[trigger] initial.ready[i],
                ) by {
                    assert(initial.ready[i] != front);
                    assert(before.tasks.contains_key(initial.ready[i]));
                }
            }
            polls = polls + 1;
        }
        proof {
            assert forall|id: u64| old(self)@.parked(id) implies #[trigger] self@.parked(id)
                && self@.tasks[id] == old(self)@.tasks[id] by {
                assert(initial.parked(id));
            }
            assert forall|id: u64| old(self)@.ready.contains(id) implies (
            #[trigger] self@.wakers.contains(id) <==> self@.tasks.contains_key(id)) by {
                let i = initial.ready.index_of(id);
                assert(initial.ready[i] == id);
            }
        }
        polls
    }
}

/// Removing a task from a duplicate-free ready queue leaves a duplicate-free
/// queue that holds every other entry and no longer holds that task.
proof fn lemma_ready_without(view: ExecutorView, id: u64)
    requires
        view.ready.no_duplicates(),
    ensures
        view.ready_without(id).no_duplicates(),
        !view.ready_without(id).contains(id),
        forall|other: u64|
            other != id ==> (#[trigger] view.ready_without(id).contains(other)
                <==> view.ready.contains(other)),
{
    let ready = view.ready;
    let rest = view.ready_without(id);
    if ready.contains(id) {
        let at = ready.index_of(id);
        ready.remove_ensures(at);
        assert forall|i: int, j: int| 0 <= i < rest.len() && 0 <= j < rest.len() && i != j implies rest[i]
            != rest[j] by {
            let from_i = if i < at { i } else { i + 1 };
            let from_j = if j < at { j } else { j + 1 };
            assert(rest[i] == ready[from_i]);
            assert(rest[j] == ready[from_j]);
        }
        assert forall|i: int| 0 <= i < rest.len() implies rest[i] != id by {
            let from_i = if i < at { i } else { i + 1 };
            assert(rest[i] == ready[from_i]);
        }
        assert forall|other: u64| other != id implies (#[trigger] rest.contains(other)
            <==> ready.contains(other)) by {
            if rest.contains(other) {
                let i = rest.index_of(other);
                let from_i = if i < at { i } else { i + 1 };
                assert(rest[i] == ready[from_i]);
            }
            if ready.contains(other) {
                let k = ready.index_of(other);
                let to = if k < at { k } else { k - 1 };
                assert(rest[to] == ready[k]);
            }
        }
    }
}

/// One thing that can happen to an executor.
pub enum ExecutorEvent {
    /// A task is spawned.
    Spawn(Task),
    /// The wake handle of the task with this identifier is invoked.
    Wake(u64),
    /// The run loop takes the task at the front of the ready queue out for
    /// polling.
    Start,
    /// The task that was out for polling comes back with this outcome.
    Finish(Task, Poll<()>),
}

impl ExecutorEvent {
    /// Whether this event spawns a task with identifier `id`.
    pub open spec fn spawns(self, id: u64) -> bool {
        self matches ExecutorEvent::Spawn(task) && task.id()@ == id
    }

    /// Whether this event invokes the wake handle of task `id`.
    pub open spec fn wakes(self, id: u64) -> bool {
        self == ExecutorEvent::Wake(id)
    }
}

impl ExecutorView {
    /// Whether `event` can happen in this state: a spawn needs an identifier
    /// that no live task has, a poll can start only when none is under way
    /// and something is ready, and only the task that is out for polling can
    /// come back. A wake can always happen.
    pub open spec fn admits(self, event: ExecutorEvent) -> bool {
        match event {
            ExecutorEvent::Spawn(task) => !self.live(task.id()@),
            ExecutorEvent::Wake(_) => true,
            ExecutorEvent::Start => self.running is None && self.has_ready(),
            ExecutorEvent::Finish(task, _) => self.running == Some(task.id()@),
        }
    }

    /// The executor after `event`.
    pub open spec fn after(self, event: ExecutorEvent) -> ExecutorView {
        match event {
            ExecutorEvent::Spawn(task) => self.spawn(task),
            ExecutorEvent::Wake(id) => self.wake(id),
            ExecutorEvent::Start => self.start(),
            ExecutorEvent::Finish(task, outcome) => self.finish(task, outcome),
        }
    }

    /// Whether `events` can happen one after the other, starting here.
    pub open spec fn admits_all(self, events: Seq<ExecutorEvent>) -> bool
        decreases events.len(),
    {
        if events.len() == 0 {
            true
        } else {
            self.admits(events[0]) && self.after(events[0]).admits_all(events.drop_first())
        }
    }

    /// The executor after all of `events`, in order.
    pub open spec fn after_all(self, events: Seq<ExecutorEvent>) -> ExecutorView
        decreases events.len(),
    {
        if events.len() == 0 {
            self
        } else {
            self.after(events[0]).after_all(events.drop_first())
        }
    }
}

/// No event takes an executor out of the states it can be in. In particular
/// the ready queue never names a task that is not live, so the run loop never
/// looks up a task that is missing from the collection.
pub proof fn law_events_keep_executor_sound(view: ExecutorView, event: ExecutorEvent)
    requires
        view.wf(),
        view.admits(event),
    ensures
        view.after(event).wf(),
{
    let after = view.after(event);
    match event {
        ExecutorEvent::Spawn(task) => {
            let id = task.id()@;
            if view.ready.contains(id) {
                assert(view.live(view.ready[view.ready.index_of(id)]));
            }
            assert forall|i: int| 0 <= i < after.ready.len() implies after.live(
                #[trigger] after.ready[i],
            ) by {
                if i < view.ready.len() {
                    assert(view.live(view.ready[i]));
                }
            }
        },
        ExecutorEvent::Wake(id) => {
            assert forall|i: int| 0 <= i < after.ready.len() implies after.live(
                #[trigger] after.ready[i],
            ) by {
                if i < view.ready.len() {
                    assert(view.live(view.ready[i]));
                }
            }
        },
        ExecutorEvent::Start => {
            let id = view.ready[0];
            assert forall|i: int| 0 <= i < after.ready.len() implies after.live(
                #[trigger] after.ready[i],
            ) by {
                assert(view.live(view.ready[i + 1]));
            }
            assert forall|other: u64| #[trigger] after.wakers.contains(other) implies after.live(
                other,
            ) by {
                if other != id {
                    assert(view.wakers.contains(other));
                }
            }
        },
        ExecutorEvent::Finish(task, outcome) => {
            let id = task.id()@;
            lemma_ready_without(view, id);
            match outcome {
                Poll::Ready(_) => {
                    assert forall|i: int| 0 <= i < after.ready.len() implies after.live(
                        #[trigger] after.ready[i],
                    ) by {
                        let other = after.ready[i];
                        assert(after.ready.contains(other));
                        assert(view.ready.contains(other));
                        assert(view.live(view.ready[view.ready.index_of(other)]));
                    }
                    assert forall|other: u64| #[trigger]
                        after.wakers.contains(other) implies after.live(other) by {
                        assert(view.wakers.contains(other));
                    }
                },
                Poll::Pending => {
                    assert forall|i: int| 0 <= i < after.ready.len() implies after.live(
                        #[trigger] after.ready[i],
                    ) by {
                        assert(view.live(view.ready[i]));
                    }
                    assert forall|other: u64| #[trigger]
                        after.wakers.contains(other) implies after.live(other) by {
                        assert(view.wakers.contains(other));
                    }
                },
            }
        },
    }
}

/// Waking is idempotent. However often the wake handle of a task is invoked
/// before the task is next polled, one invocation or many, the result is the
/// same as after a single invocation: a live task stands in the ready queue at
/// exactly one place.
pub proof fn law_wake_is_idempotent(view: ExecutorView, id: u64, count: nat)
    requires
        view.wf(),
        count >= 1,
    ensures
        view.wake_times(id, count) == view.wake(id),
        view.wake(id).wf(),
        view.live(id) ==> view.wake(id).ready.contains(id),
        forall|i: int, j: int|
            0 <= i < view.wake(id).ready.len() && 0 <= j < view.wake(id).ready.len()
                && view.wake(id).ready[i] == id && view.wake(id).ready[j] == id ==> i == j,
    decreases count,
{
    let once = view.wake(id);
    law_events_keep_executor_sound(view, ExecutorEvent::Wake(id));
    if view.live(id) && !view.ready.contains(id) {
        assert(once.ready[once.ready.len() - 1] == id);
    }
    assert(once.wake(id) == once);
    if count > 1 {
        law_wake_is_idempotent(once, id, (count - 1) as nat);
    } else {
        assert(once.wake_times(id, 0) == once);
    }
}

/// A task that suspended without arming a wake is never polled again. As long
/// as nobody invokes the wake handle of a parked task, whatever else happens
/// (spawns, wakes of other tasks, polls of other tasks), that task stays
/// parked: it is never in the ready queue, never handed out for polling, and
/// the collection holds it unchanged.
pub proof fn law_unwoken_task_stays_parked(view: ExecutorView, events: Seq<ExecutorEvent>, id: u64)
    requires
        view.wf(),
        view.admits_all(events),
        view.parked(id),
        forall|i: int| 0 <= i < events.len() ==> !(#[trigger] events[i]).wakes(id),
    ensures
        view.after_all(events).wf(),
        view.after_all(events).parked(id),
        view.after_all(events).running != Some(id),
        view.after_all(events).tasks[id] == view.tasks[id],
    decreases events.len(),
{
    if events.len() > 0 {
        let event = events[0];
        let next = view.after(event);
        let rest = events.drop_first();
        law_events_keep_executor_sound(view, event);
        match event {
            ExecutorEvent::Spawn(task) => {
                assert(task.id()@ != id);
            },
            ExecutorEvent::Wake(other) => {
                assert(!event.wakes(id));
                assert(other != id);
            },
            ExecutorEvent::Start => {
                if view.ready.drop_first().contains(id) {
                    let i = view.ready.drop_first().index_of(id);
                    assert(view.ready[i + 1] == id);
                }
            },
            ExecutorEvent::Finish(task, outcome) => {
                lemma_ready_without(view, task.id()@);
            },
        }
        assert(next.parked(id));
        assert(next.tasks[id] == view.tasks[id]);
        assert forall|i: int| 0 <= i < rest.len() implies !(#[trigger] rest[i]).wakes(id) by {
            assert(rest[i] == events[i + 1]);
        }
        law_unwoken_task_stays_parked(next, rest, id);
    }
}

/// A completed task is gone for good. When a task comes back from its poll
/// completed, it is in neither the collection, the ready queue nor the waker
/// registry; and as long as no new task is spawned under its identifier,
/// nothing brings it back, not even an invocation of a wake handle that still
/// names it.
pub proof fn law_completed_task_is_gone(
    view: ExecutorView,
    task: Task,
    events: Seq<ExecutorEvent>,
)
    requires
        view.wf(),
        view.running == Some(task.id()@),
        view.finish(task, Poll::Ready(())).admits_all(events),
        forall|i: int| 0 <= i < events.len() ==> !(#[trigger] events[i]).spawns(task.id()@),
    ensures
        !view.finish(task, Poll::Ready(())).after_all(events).live(task.id()@),
        !view.finish(task, Poll::Ready(())).after_all(events).ready.contains(task.id()@),
        !view.finish(task, Poll::Ready(())).after_all(events).wakers.contains(task.id()@),
{
    let id = task.id()@;
    let done = view.finish(task, Poll::Ready(()));
    law_events_keep_executor_sound(view, ExecutorEvent::Finish(task, Poll::Ready(())));
    lemma_ready_without(view, id);
    lemma_dead_task_stays_dead(done, events, id);
}

/// A task that is not live stays out of the collection, the ready queue and
/// the waker registry until a task is spawned under its identifier.
proof fn lemma_dead_task_stays_dead(view: ExecutorView, events: Seq<ExecutorEvent>, id: u64)
    requires
        view.wf(),
        view.admits_all(events),
        !view.live(id),
        forall|i: int| 0 <= i < events.len() ==> !(#[trigger] events[i]).spawns(id),
    ensures
        !view.after_all(events).live(id),
        !view.after_all(events).ready.contains(id),
        !view.after_all(events).wakers.contains(id),
    decreases events.len(),
{
    if view.ready.contains(id) {
        assert(view.live(view.ready[view.ready.index_of(id)]));
    }
    if events.len() > 0 {
        let event = events[0];
        let next = view.after(event);
        let rest = events.drop_first();
        law_events_keep_executor_sound(view, event);
        match event {
            ExecutorEvent::Spawn(task) => {
                assert(!event.spawns(id));
            },
            ExecutorEvent::Wake(other) => {},
            ExecutorEvent::Start => {},
            ExecutorEvent::Finish(task, outcome) => {
                lemma_ready_without(view, task.id()@);
            },
        }
        assert(!next.live(id));
        assert forall|i: int| 0 <= i < rest.len() implies !(#[trigger] rest[i]).spawns(id) by {
            assert(rest[i] == events[i + 1]);
        }
        lemma_dead_task_stays_dead(next, rest, id);
    }
}

} // verus!
