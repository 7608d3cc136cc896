//! The scancode channel: a bounded queue of raw keyboard bytes that an
//! interrupt handler fills and one task drains, with a slot for the wake handle
//! of the task that waits.

use vstd::prelude::*;
use crate::task::{Context, Poll, Waker};

verus! {

/// Number of slots of the scancode queue that a channel allocates on first use.
pub const SCANCODE_QUEUE_CAPACITY: usize = 100;

/// The slot that holds the element `offset` places behind `head` in a ring of
/// `capacity` slots.
pub open spec fn ring_slot(head: int, offset: int, capacity: int) -> int {
    if head + offset < capacity {
        head + offset
    } else {
        head + offset - capacity
    }
}

/// A fixed-capacity first-in, first-out queue of bytes, kept in a ring of
/// slots that is allocated once. A push to a full queue is refused; nothing
/// that is already queued is ever overwritten.
pub struct ScancodeQueue {
    slots: Vec<u8>,
    head: usize,
    len: usize,
}

impl View for ScancodeQueue {
    type V = Seq<u8>;

    /// The queued bytes, oldest first.
    closed spec fn view(&self) -> Seq<u8> {
        Seq::new(
            self.len as nat,
            |i: int| self.slots@[ring_slot(self.head as int, i, self.slots@.len() as int)],
        )
    }
}

impl ScancodeQueue {
    /// The invariant of the ring: it has at least one slot, and the head and
    /// the length stay within the slots. Every constructor establishes it and
    /// every method keeps it.
    pub closed spec fn well_formed(&self) -> bool {
        &&& self.slots@.len() > 0
        &&& self.head < self.slots@.len()
        &&& self.len <= self.slots@.len()
    }

    /// The number of slots.
    pub closed spec fn spec_capacity(&self) -> nat {
        self.slots@.len()
    }

    /// An empty queue with `capacity` slots.
    pub fn new(capacity: usize) -> (queue: ScancodeQueue)
        requires
            capacity > 0,
        ensures
            queue.well_formed(),
            queue@ == Seq::<u8>::empty(),
            queue.spec_capacity() == capacity,
    {
        let slots: Vec<u8> = vec![0u8; capacity];
        ScancodeQueue { slots, head: 0, len: 0 }
    }

    /// The number of slots.
    pub fn capacity(&self) -> (capacity: usize)
        requires
            self.well_formed(),
        ensures
            capacity == self.spec_capacity(),
            capacity > 0,
            self@.len() <= capacity,
    {
        self.slots.len()
    }

    /// The number of queued bytes.
    pub fn len(&self) -> (len: usize)
        ensures
            len == self@.len(),
    {
        self.len
    }

    /// Whether nothing is queued.
    pub fn is_empty(&self) -> (empty: bool)
        ensures
            empty == (self@.len() == 0),
    {
        self.len == 0
    }

    /// Whether every slot is taken.
    pub fn is_full(&self) -> (full: bool)
        ensures
            full == (self@.len() == self.spec_capacity()),
    {
        self.len == self.slots.len()
    }

    /// Appends `byte` unless the queue is full. A full queue hands the byte
    /// back and stays exactly as it was.
    pub fn push(&mut self, byte: u8) -> (result: Result<(), u8>)
        requires
            old(self).well_formed(),
        ensures
            final(self).well_formed(),
            final(self).spec_capacity() == old(self).spec_capacity(),
            old(self)@.len() < old(self).spec_capacity() ==> result == Ok::<(), u8>(())
                && final(self)@ == old(self)@.push(byte),
            old(self)@.len() >= old(self).spec_capacity() ==> result == Err::<(), u8>(byte)
                && final(self)@ == old(self)@,
    {
        let capacity: usize = self.slots.len();
        if self.len == capacity {
            return Err(byte);
        }
        let room: usize = capacity - self.len;
        let tail: usize = if self.head < room {
            self.head + self.len
        } else {
            self.head - room
        };
        self.slots.set(tail, byte);
        self.len = self.len + 1;
        assert(final(self)@ =~= old(self)@.push(byte));
        Ok(())
    }

    /// Takes the oldest byte out, if there is one.
    pub fn pop(&mut self) -> (byte: Option<u8>)
        requires
            old(self).well_formed(),
        ensures
            final(self).well_formed(),
            final(self).spec_capacity() == old(self).spec_capacity(),
            old(self)@.len() > 0 ==> byte == Some(old(self)@[0])
                && final(self)@ == old(self)@.drop_first(),
            old(self)@.len() == 0 ==> byte == None::<u8> && final(self)@ == old(self)@,
    {
        if self.len == 0 {
            return None;
        }
        let capacity: usize = self.slots.len();
        let byte: u8 = self.slots[self.head];
        let next: usize = if self.head + 1 == capacity {
            0
        } else {
            self.head + 1
        };
        self.head = next;
        self.len = self.len - 1;
        assert(final(self)@ =~= old(self)@.drop_first());
        Some(byte)
    }
}

/// What became of a byte handed to [`ScancodeChannel::push`].
#[derive(Debug, PartialEq, Eq, Structural)]
pub enum PushOutcome {
    /// The byte was queued. The wake slot was emptied; if a wake handle was
    /// registered there, this is it, and it is now due to be invoked.
    Queued(Option<Waker>),
    /// The queue was full: the byte was dropped and nothing changed.
    Full,
    /// The queue has not been constructed yet: the byte was dropped and
    /// nothing changed.
    Uninitialized,
}

/// The state of a scancode channel as contracts see it.
#[verifier::ext_equal]
pub struct ChannelView {
    /// Whether the queue has been constructed.
    pub initialized: bool,
    /// The queued bytes, oldest first.
    pub bytes: Seq<u8>,
    /// The number of slots of the queue; zero before it is constructed.
    pub capacity: nat,
    /// The wake slot: the handle of the task that waits for the next byte.
    pub waker: Option<Waker>,
}

impl ChannelView {
    /// The states that a channel can be in.
    pub open spec fn wf(self) -> bool {
        &&& self.bytes.len() <= self.capacity
        &&& self.initialized ==> self.capacity > 0
        &&& !self.initialized ==> self.capacity == 0
    }

    /// The channel before first use: no queue yet, nobody waiting.
    pub open spec fn unused() -> ChannelView {
        ChannelView { initialized: false, bytes: Seq::empty(), capacity: 0, waker: None }
    }

    /// Constructing the queue: a first call allocates it empty, any later call
    /// changes nothing.
    pub open spec fn init(self) -> ChannelView {
        if self.initialized {
            self
        } else {
            ChannelView {
                initialized: true,
                bytes: Seq::empty(),
                capacity: SCANCODE_QUEUE_CAPACITY as nat,
                waker: self.waker,
            }
        }
    }

    /// Whether a push would be accepted: the queue exists and has room.
    pub open spec fn accepts(self) -> bool {
        self.initialized && self.bytes.len() < self.capacity
    }

    /// The channel after a push of `byte`.
    pub open spec fn push(self, byte: u8) -> ChannelView {
        if self.accepts() {
            ChannelView { bytes: self.bytes.push(byte), waker: None, ..self }
        } else {
            self
        }
    }

    /// What a push of `byte` reports.
    pub open spec fn push_outcome(self, byte: u8) -> PushOutcome {
        if !self.initialized {
            PushOutcome::Uninitialized
        } else if self.bytes.len() < self.capacity {
            PushOutcome::Queued(self.waker)
        } else {
            PushOutcome::Full
        }
    }

    /// The oldest queued byte, if any.
    pub open spec fn front(self) -> Option<u8> {
        if self.bytes.len() > 0 {
            Some(self.bytes[0])
        } else {
            None
        }
    }

    /// The channel after the consumer's first look: the oldest byte, if any,
    /// has left.
    pub open spec fn try_pop(self) -> ChannelView {
        if self.bytes.len() > 0 {
            ChannelView { bytes: self.bytes.drop_first(), ..self }
        } else {
            self
        }
    }

    /// The channel after `waker` was put into the wake slot.
    pub open spec fn register(self, waker: Waker) -> ChannelView {
        ChannelView { waker: Some(waker), ..self }
    }

    /// The channel after the consumer's second look, the one that follows
    /// registration: a byte that has arrived meanwhile leaves, and the
    /// registration is withdrawn with it.
    pub open spec fn recheck(self) -> ChannelView {
        if self.bytes.len() > 0 {
            ChannelView { bytes: self.bytes.drop_first(), waker: None, ..self }
        } else {
            self
        }
    }

    /// What either look reports: the oldest byte, or that the consumer is
    /// suspended.
    pub open spec fn next(self) -> Poll<u8> {
        if self.bytes.len() > 0 {
            Poll::Ready(self.bytes[0])
        } else {
            Poll::Pending
        }
    }

    /// The channel after one whole poll by the task that `waker` wakes, with
    /// nothing arriving in between.
    pub open spec fn poll_next(self, waker: Waker) -> ChannelView {
        let ready = self.init();
        if ready.bytes.len() > 0 {
            ready.try_pop()
        } else {
            ready.register(waker).recheck()
        }
    }
}

/// The channel between the keyboard interrupt handler and the task that
/// consumes scancodes. One side pushes, never blocking; the other polls and, on
/// an empty queue, leaves its wake handle in the wake slot.
pub struct ScancodeChannel {
    queue: Option<ScancodeQueue>,
    waker: Option<Waker>,
}

impl View for ScancodeChannel {
    type V = ChannelView;

    closed spec fn view(&self) -> ChannelView {
        match self.queue {
            Some(queue) => ChannelView {
                initialized: true,
                bytes: queue@,
                capacity: queue.spec_capacity(),
                waker: self.waker,
            },
            None => ChannelView {
                initialized: false,
                bytes: Seq::empty(),
                capacity: 0,
                waker: self.waker,
            },
        }
    }
}

impl ScancodeChannel {
    /// The invariant of the channel: its queue, once constructed, is a sound
    /// ring. Every constructor establishes it and every method keeps it.
    pub closed spec fn well_formed(&self) -> bool {
        &&& self.queue matches Some(queue) ==> queue.well_formed()
        &&& self@.wf()
    }

    /// A channel whose queue is not constructed yet. Nothing is allocated, so
    /// this may run before there is a heap.
    pub fn new() -> (channel: ScancodeChannel)
        ensures
            channel.well_formed(),
            channel@ == ChannelView::unused(),
    {
        ScancodeChannel { queue: None, waker: None }
    }

    /// A channel with an empty queue of `capacity` slots.
    pub fn with_capacity(capacity: usize) -> (channel: ScancodeChannel)
        requires
            capacity > 0,
        ensures
            channel.well_formed(),
            channel@ == (ChannelView {
                initialized: true,
                bytes: Seq::empty(),
                capacity: capacity as nat,
                waker: None,
            }),
    {
        ScancodeChannel { queue: Some(ScancodeQueue::new(capacity)), waker: None }
    }

    /// Constructs the queue on the first call and does nothing on any later
    /// one. Call it once a heap exists.
    pub fn init(&mut self)
        requires
            old(self).well_formed(),
        ensures
            final(self).well_formed(),
            final(self)@ == old(self)@.init(),
    {
        if self.queue.is_none() {
            self.queue = Some(ScancodeQueue::new(SCANCODE_QUEUE_CAPACITY));
        }
    }

    /// Whether the queue has been constructed.
    pub fn is_initialized(&self) -> (initialized: bool)
        ensures
            initialized == self@.initialized,
    {
        self.queue.is_some()
    }

    /// The number of queued bytes.
    pub fn len(&self) -> (len: usize)
        ensures
            len == self@.bytes.len(),
    {
        match &self.queue {
            Some(queue) => queue.len(),
            None => 0,
        }
    }

    /// Whether a wake handle is registered.
    pub fn has_waker(&self) -> (registered: bool)
        ensures
            registered == self@.waker.is_some(),
    {
        self.waker.is_some()
    }

    /// Hands one byte to the channel, from interrupt context: it never blocks,
    /// never allocates and always returns. A byte that finds the queue full or
    /// not yet constructed is dropped and everything stays as it was. An
    /// accepted byte goes to the back of the queue and empties the wake slot;
    /// the outcome carries the wake handle that stood there, for the caller to
    /// invoke.
    pub fn push(&mut self, byte: u8) -> (outcome: PushOutcome)
        requires
            old(self).well_formed(),
        ensures
            final(self).well_formed(),
            final(self)@ == old(self)@.push(byte),
            outcome == old(self)@.push_outcome(byte),
    {
        let mut queue = match self.queue.take() {
            Some(queue) => queue,
            None => {
                return PushOutcome::Uninitialized;
            },
        };
        let result = queue.push(byte);
        self.queue = Some(queue);
        match result {
            Ok(()) => PushOutcome::Queued(self.waker.take()),
            Err(_) => PushOutcome::Full,
        }
    }

    /// The consumer's first look: takes the oldest byte out, if there is one.
    pub fn try_pop(&mut self) -> (byte: Option<u8>)
        requires
            old(self).well_formed(),
        ensures
            final(self).well_formed(),
            final(self)@ == old(self)@.try_pop(),
            byte == old(self)@.front(),
    {
        let mut queue = match self.queue.take() {
            Some(queue) => queue,
            None => {
                return None;
            },
        };
        let byte = queue.pop();
        self.queue = Some(queue);
        byte
    }

    /// Puts `waker` into the wake slot, replacing what stood there.
    pub fn register(&mut self, waker: Waker)
        requires
            old(self).well_formed(),
        ensures
            final(self).well_formed(),
            final(self)@ == old(self)@.register(waker),
    {
        self.waker = Some(waker);
    }

    /// The consumer's second look, after it has registered: a byte that has
    /// arrived since the first look is taken out and the registration is
    /// withdrawn; otherwise the consumer is suspended with its handle in place.
    pub fn recheck(&mut self) -> (next: Poll<u8>)
        requires
            old(self).well_formed(),
        ensures
            final(self).well_formed(),
            final(self)@ == old(self)@.recheck(),
            next == old(self)@.next(),
    {
        match self.try_pop() {
            Some(byte) => {
                self.waker = None;
                Poll::Ready(byte)
            },
            None => Poll::Pending,
        }
    }

    /// One poll by the consuming task: the oldest byte if there is one;
    /// otherwise the task's wake handle is registered, the queue is looked at
    /// once more, and only if it is still empty the task is told to suspend.
    /// The queue is constructed here if it was not before.
    pub fn poll_next(&mut self, context: &Context) -> (next: Poll<u8>)
        requires
            old(self).well_formed(),
        ensures
            final(self).well_formed(),
            final(self)@ == old(self)@.poll_next(context.waker()),
            next == old(self)@.init().next(),
    {
        self.init();
        match self.try_pop() {
            Some(byte) => Poll::Ready(byte),
            None => {
                self.register(context.waker());
                self.recheck()
            },
        }
    }
}

/// One thing that can happen to a channel. The producer pushes; the consumer
/// either polls in one piece or takes the three steps of a poll one at a time,
/// so that pushes can fall between them.
pub enum ChannelEvent {
    /// The interrupt handler pushes a byte.
    Push(u8),
    /// The consumer polls, with nothing arriving during the poll.
    Poll(Waker),
    /// The consumer takes its first look.
    TryPop,
    /// The consumer registers its wake handle.
    Register(Waker),
    /// The consumer takes its second look.
    Recheck,
}

impl ChannelView {
    /// The channel after `event`.
    pub open spec fn after(self, event: ChannelEvent) -> ChannelView {
        match event {
            ChannelEvent::Push(byte) => self.push(byte),
            ChannelEvent::Poll(waker) => self.poll_next(waker),
            ChannelEvent::TryPop => self.try_pop(),
            ChannelEvent::Register(waker) => self.register(waker),
            ChannelEvent::Recheck => self.recheck(),
        }
    }

    /// The byte that `event` puts into the queue, if it puts one.
    pub open spec fn accepted_by(self, event: ChannelEvent) -> Seq<u8> {
        match event {
            ChannelEvent::Push(byte) => if self.accepts() {
                seq![byte]
            } else {
                Seq::empty()
            },
            _ => Seq::empty(),
        }
    }

    /// The byte that `event` hands to the consumer, if it hands one over.
    pub open spec fn observed_by(self, event: ChannelEvent) -> Seq<u8> {
        match event {
            ChannelEvent::Push(_) => Seq::empty(),
            ChannelEvent::Register(_) => Seq::empty(),
            ChannelEvent::Poll(_) => match self.init().next() {
                Poll::Ready(byte) => seq![byte],
                Poll::Pending => Seq::empty(),
            },
            _ => match self.next() {
                Poll::Ready(byte) => seq![byte],
                Poll::Pending => Seq::empty(),
            },
        }
    }

    /// The channel after all of `events`, in order.
    pub open spec fn after_all(self, events: Seq<ChannelEvent>) -> ChannelView
        decreases events.len(),
    {
        if events.len() == 0 {
            self
        } else {
            self.after(events[0]).after_all(events.drop_first())
        }
    }

    /// The bytes that the pushes among `events` put into the queue, in push
    /// order.
    pub open spec fn accepted(self, events: Seq<ChannelEvent>) -> Seq<u8>
        decreases events.len(),
    {
        if events.len() == 0 {
            Seq::empty()
        } else {
            self.accepted_by(events[0]) + self.after(events[0]).accepted(events.drop_first())
        }
    }

    /// The bytes that the consumer receives during `events`, in the order in
    /// which it receives them.
    pub open spec fn observed(self, events: Seq<ChannelEvent>) -> Seq<u8>
        decreases events.len(),
    {
        if events.len() == 0 {
            Seq::empty()
        } else {
            self.observed_by(events[0]) + self.after(events[0]).observed(events.drop_first())
        }
    }
}

/// No event takes a channel out of the states it can be in.
pub proof fn law_events_keep_channel_sound(channel: ChannelView, event: ChannelEvent)
    requires
        channel.wf(),
    ensures
        channel.after(event).wf(),
{
}

/// Constructing the queue twice is the same as constructing it once, and
/// constructing it again loses neither a queued byte nor the registered wake
/// handle.
pub proof fn law_init_is_idempotent(channel: ChannelView)
    ensures
        channel.init().init() == channel.init(),
        channel.initialized ==> channel.init() == channel,
        channel.init().waker == channel.waker,
{
}

/// A push to a full queue drops the new byte and leaves the queued bytes, the
/// capacity and the wake slot untouched.
pub proof fn law_full_queue_drops_newest(channel: ChannelView, byte: u8)
    requires
        channel.wf(),
        channel.initialized,
        channel.bytes.len() == channel.capacity,
    ensures
        channel.push(byte) == channel,
        channel.push_outcome(byte) == PushOutcome::Full,
{
}

/// First in, first out, nothing lost and nothing doubled: whatever pushes and
/// consumer steps happen and however they interleave, the bytes that were
/// queued at the start followed by the bytes accepted since are exactly the
/// bytes the consumer has received followed by the bytes still queued.
pub proof fn law_bytes_leave_in_push_order(channel: ChannelView, events: Seq<ChannelEvent>)
    requires
        channel.wf(),
    ensures
        channel.bytes + channel.accepted(events) == channel.observed(events) + channel.after_all(
            events,
        ).bytes,
    decreases events.len(),
{
    if events.len() == 0 {
        assert(channel.bytes + Seq::<u8>::empty() =~= Seq::<u8>::empty() + channel.bytes);
    } else {
        let event = events[0];
        let next = channel.after(event);
        let rest = events.drop_first();
        law_events_keep_channel_sound(channel, event);
        law_bytes_leave_in_push_order(next, rest);
        assert(channel.bytes + channel.accepted_by(event) =~= channel.observed_by(event)
            + next.bytes);
        assert(channel.bytes + (channel.accepted_by(event) + next.accepted(rest)) =~= (
        channel.bytes + channel.accepted_by(event)) + next.accepted(rest));
        assert((channel.observed_by(event) + next.bytes) + next.accepted(rest)
            =~= channel.observed_by(event) + (next.bytes + next.accepted(rest)));
        assert(channel.observed_by(event) + (next.observed(rest) + next.after_all(rest).bytes)
            =~= (channel.observed_by(event) + next.observed(rest)) + next.after_all(rest).bytes);
    }
}

/// Draining: once the queue is constructed, polling as often as bytes are
/// queued hands over exactly the queued bytes, in order, and leaves the queue
/// empty.
pub proof fn law_polls_drain_the_queue(channel: ChannelView, waker: Waker)
    requires
        channel.wf(),
        channel.initialized,
    ensures
        channel.observed(Seq::new(channel.bytes.len(), |i: int| ChannelEvent::Poll(waker)))
            == channel.bytes,
        channel.after_all(
            Seq::new(channel.bytes.len(), |i: int| ChannelEvent::Poll(waker)),
        ).bytes.len() == 0,
    decreases channel.bytes.len(),
{
    let polls = Seq::new(channel.bytes.len(), |i: int| ChannelEvent::Poll(waker));
    if channel.bytes.len() == 0 {
        assert(channel.observed(polls) =~= channel.bytes);
    } else {
        let next = channel.after(polls[0]);
        let fewer = Seq::new(next.bytes.len(), |i: int| ChannelEvent::Poll(waker));
        assert(polls.drop_first() =~= fewer);
        law_polls_drain_the_queue(next, waker);
        assert(channel.observed(polls) =~= channel.bytes);
    }
}

/// No missed wake when a byte arrives in the middle of a poll. The consumer
/// finds the queue empty; a byte arrives before the consumer has registered,
/// so nobody is woken for it; the consumer registers and looks again. It gets
/// that byte from this very poll, and leaves no registration behind.
pub proof fn law_byte_arriving_before_registration_is_seen(
    channel: ChannelView,
    byte: u8,
    waker: Waker,
)
    requires
        channel.wf(),
        channel.initialized,
        channel.bytes.len() == 0,
    ensures
        channel.try_pop() == channel,
        channel.front() == None::<u8>,
        channel.push_outcome(byte) == PushOutcome::Queued(channel.waker),
        channel.push(byte).register(waker).next() == Poll::Ready(byte),
        channel.push(byte).register(waker).recheck().bytes == Seq::<u8>::empty(),
        channel.push(byte).register(waker).recheck().waker == None::<Waker>,
{
    let looked_again = channel.push(byte).register(waker).recheck();
    assert(looked_again.bytes =~= Seq::<u8>::empty());
}

/// No missed wake when a byte arrives after registration. A consumer that was
/// told to suspend has its wake handle in the slot, so the next byte, which an
/// empty queue always accepts, hands that very handle to the producer to
/// invoke, and the next poll yields that byte.
pub proof fn law_suspended_consumer_is_woken(channel: ChannelView, byte: u8, waker: Waker)
    requires
        channel.wf(),
        channel.init().next() == Poll::<u8>::Pending,
    ensures
        channel.poll_next(waker).waker == Some(waker),
        channel.poll_next(waker).push_outcome(byte) == PushOutcome::Queued(Some(waker)),
        channel.poll_next(waker).push(byte).init().next() == Poll::Ready(byte),
{
}

} // verus!
