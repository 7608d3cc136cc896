//! Tasks: suspendable computations with an identity.
//!
//! A [`Task`] pairs a [`TaskId`] with an owned, heap-resident computation that
//! the scheduler resumes through [`Task::poll`]. The computation reports one of
//! two outcomes, [`Poll::Ready`] or [`Poll::Pending`]; only its side effects
//! matter.

use vstd::prelude::*;

pub mod executor;
pub mod keyboard;

verus! {

/// Identifier of a task. Identifiers are handed out in increasing order by a
/// [`TaskIdCounter`] and are never handed out twice by the same counter.
#[derive(Debug, Clone, Copy, PartialEq, Eq, PartialOrd, Ord, Structural)]
pub struct TaskId(u64);

impl View for TaskId {
    type V = u64;

    closed spec fn view(&self) -> u64 {
        self.0
    }
}

impl TaskId {
    /// Mints a fresh identifier: the counter's next value, after which the
    /// counter stands one higher.
    pub fn new(counter: &mut TaskIdCounter) -> (id: TaskId)
        requires
            !old(counter).is_exhausted(),
        ensures
            id@ == old(counter).next(),
            final(counter).next() == old(counter).next() + 1,
    {
        let value: u64 = counter.next;
        counter.next = value + 1;
        TaskId(value)
    }

    /// The identifier as a number.
    pub fn as_u64(self) -> (value: u64)
        ensures
            value == self@,
    {
        self.0
    }
}

/// The source of task identifiers: a counter that starts at zero and only
/// ever goes up.
#[derive(Debug)]
pub struct TaskIdCounter {
    next: u64,
}

impl TaskIdCounter {
    /// The value that the next identifier will carry.
    pub closed spec fn next(&self) -> u64 {
        self.next
    }

    /// A counter is exhausted once the next identifier would be the last one
    /// that 64 bits can hold; the counter then could not step past it.
    pub open spec fn is_exhausted(&self) -> bool {
        self.next() == u64::MAX
    }

    /// A counter that has handed out nothing yet.
    pub fn new() -> (counter: TaskIdCounter)
        ensures
            counter.next() == 0,
    {
        TaskIdCounter { next: 0 }
    }

    /// Whether no further identifier can be minted.
    pub fn exhausted(&self) -> (exhausted: bool)
        ensures
            exhausted == self.is_exhausted(),
    {
        self.next == u64::MAX
    }
}

/// Outcome of resuming a computation.
#[derive(Debug, PartialEq, Eq, Structural)]
pub enum Poll<T> {
    /// The computation has produced its value and must not be resumed again.
    Ready(T),
    /// The computation has suspended; it runs again only after a wake.
    Pending,
}

impl<T> Poll<T> {
    /// Whether the computation has completed.
    pub fn is_ready(&self) -> (ready: bool)
        ensures
            ready == (*self is Ready),
    {
        match self {
            Poll::Ready(_) => true,
            Poll::Pending => false,
        }
    }

    /// Whether the computation has suspended.
    pub fn is_pending(&self) -> (pending: bool)
        ensures
            pending == (*self is Pending),
    {
        match self {
            Poll::Ready(_) => false,
            Poll::Pending => true,
        }
    }
}

/// A wake handle bound to one task. Invoking it marks that task ready; it
/// never runs the task itself.
#[derive(Debug, Clone, Copy, PartialEq, Eq, Structural)]
pub struct Waker {
    task_id: TaskId,
}

impl View for Waker {
    type V = u64;

    closed spec fn view(&self) -> u64 {
        self.task_id@
    }
}

impl Waker {
    /// The wake handle of the task with the given identifier.
    pub fn new(task_id: TaskId) -> (waker: Waker)
        ensures
            waker@ == task_id@,
    {
        Waker { task_id }
    }

    /// The task this handle wakes.
    pub fn task_id(&self) -> (id: TaskId)
        ensures
            id@ == self@,
    {
        self.task_id
    }
}

/// The scheduling context handed to a computation while it is resumed. It
/// carries the wake handle of the task being polled, which the computation
/// registers wherever it waits.
#[derive(Debug)]
pub struct Context {
    waker: Waker,
}

impl Context {
    /// The wake handle of the task being polled.
    pub closed spec fn spec_waker(&self) -> Waker {
        self.waker
    }

    /// A context around the given wake handle.
    pub fn from_waker(waker: Waker) -> (context: Context)
        ensures
            context.waker() == waker,
    {
        Context { waker }
    }

    /// The wake handle of the task being polled.
    #[verifier::when_used_as_spec(spec_waker)]
    pub fn waker(&self) -> (waker: Waker)
        ensures
            waker == self.spec_waker(),
    {
        self.waker
    }
}

/// A suspendable computation. Each call of `poll` resumes it until it either
/// completes or suspends. A computation that suspends must first have
/// registered the context's wake handle with whatever it waits for: one that
/// returns `Pending` without doing so is never resumed again.
pub trait Computation {
    /// Resumes the computation.
    fn poll(&mut self, context: &mut Context) -> Poll<()>;
}

/// A computation together with its identity, as the executor stores it.
pub struct Task {
    id: TaskId,
    computation: Box<dyn Computation>,
}

impl Task {
    /// The identifier that the task carries.
    pub closed spec fn spec_id(&self) -> TaskId {
        self.id
    }

    /// Wraps a computation into a task with a freshly minted identifier.
    pub fn new(counter: &mut TaskIdCounter, computation: Box<dyn Computation>) -> (task: Task)
        requires
            !old(counter).is_exhausted(),
        ensures
            task.spec_id()@ == old(counter).next(),
            final(counter).next() == old(counter).next() + 1,
    {
        Task { id: TaskId::new(counter), computation }
    }

    /// The identifier that the task carries.
    #[verifier::when_used_as_spec(spec_id)]
    pub fn id(&self) -> (id: TaskId)
        ensures
            id == self.spec_id(),
    {
        self.id
    }

    /// Resumes the wrapped computation once and reports whether it completed
    /// or suspended. The task keeps its identity.
    pub fn poll(&mut self, context: &mut Context) -> (outcome: Poll<()>)
        ensures
            final(self).id() == old(self).id(),
    {
        self.computation.poll(context)
    }
}

/// Identifiers are never reused. A counter only goes up, by one with each
/// identifier it mints; so of two identifiers minted from one counter, the
/// one minted while the counter stood lower is the smaller, and the two differ.
pub proof fn law_task_ids_are_never_reused(
    earlier: TaskIdCounter,
    later: TaskIdCounter,
    first: TaskId,
    second: TaskId,
)
    requires
        first@ == earlier.next(),
        second@ == later.next(),
        earlier.next() + 1 <= later.next(),
    ensures
        first@ < second@,
        first != second,
{
}

} // verus!
