//! The keyboard path: how a scancode gets from the interrupt handler into the
//! channel, and how the keyboard task takes scancodes out again.

use vstd::prelude::*;
use crate::task::executor::Executor;
use crate::scancode::{ChannelView, PushOutcome, ScancodeChannel};
use crate::task::{Context, Poll};

verus! {

/// The diagnostic for a scancode that arrived at a full queue.
pub const QUEUE_FULL_WARNING: &'static str = "WARNING: scancode queue full; dropping keyboard input";

/// The diagnostic for a scancode that arrived before the queue was constructed.
pub const QUEUE_UNINITIALIZED_WARNING: &'static str = "WARNING: scancode queue uninitialized";

/// The line to put on the console for a push with this outcome, if any: a
/// dropped scancode is reported, a queued one is not. The text is static, so
/// reporting needs no allocation.
pub fn diagnostic(outcome: &PushOutcome) -> (line: Option<&'static str>)
    ensures
        match *outcome {
            PushOutcome::Queued(_) => line is None,
            PushOutcome::Full => line matches Some(text) && text@ == QUEUE_FULL_WARNING@,
            PushOutcome::Uninitialized => line matches Some(text) && text@
                == QUEUE_UNINITIALIZED_WARNING@,
        },
{
    match outcome {
        PushOutcome::Queued(_) => None,
        PushOutcome::Full => Some(QUEUE_FULL_WARNING),
        PushOutcome::Uninitialized => Some(QUEUE_UNINITIALIZED_WARNING),
    }
}

/// What the keyboard interrupt handler does with the byte it has read: it
/// pushes the byte into the channel and, if the byte was queued and a task was
/// waiting for it, invokes that task's wake handle. Runs in bounded time,
/// never blocks and never fails: a byte that cannot be queued is dropped, and
/// the outcome says so.
pub fn add_scancode(channel: &mut ScancodeChannel, executor: &mut Executor, scancode: u8) -> (outcome:
    PushOutcome)
    requires
        old(channel).well_formed(),
        old(executor).well_formed(),
    ensures
        final(channel).well_formed(),
        final(executor).well_formed(),
        final(channel)@ == old(channel)@.push(scancode),
        outcome == old(channel)@.push_outcome(scancode),
        final(executor)@ == (match outcome {
            PushOutcome::Queued(Some(waker)) => old(executor)@.wake(waker@),
            _ => old(executor)@,
        }),
{
    let outcome = channel.push(scancode);
    match &outcome {
        PushOutcome::Queued(Some(waker)) => {
            executor.wake(waker);
        },
        _ => {},
    }
    outcome
}

/// One poll of the keyboard task: it takes every queued scancode out of the
/// channel, oldest first, and appends them to `received`. When the queue is
/// empty it leaves its wake handle in the wake slot and suspends. It never
/// completes.
pub fn poll_scancodes(channel: &mut ScancodeChannel, context: &Context, received: &mut Vec<u8>) -> (outcome:
    Poll<()>)
    requires
        old(channel).well_formed(),
    ensures
        final(channel).well_formed(),
        outcome == Poll::<()>::Pending,
        final(received)@ == old(received)@ + old(channel)@.init().bytes,
        final(channel)@ == (ChannelView {
            bytes: Seq::empty(),
            waker: Some(context.waker()),
            ..old(channel)@.init()
        }),
{
    channel.init();
    let ghost queued = channel@.bytes;
    loop
        invariant
            channel.well_formed(),
            channel@.initialized,
            channel@.capacity == old(channel)@.init().capacity,
            queued == old(channel)@.init().bytes,
            received@ + channel@.bytes == old(received)@ + queued,
        ensures
            channel.well_formed(),
            received@ == old(received)@ + queued,
            channel@ == (ChannelView {
                bytes: Seq::empty(),
                waker: Some(context.waker()),
                ..old(channel)@.init()
            }),
        decreases channel@.bytes.len(),
    {
        let ghost before = channel@;
        let ghost got = received@;
        match channel.poll_next(context) {
            Poll::Ready(scancode) => {
                received.push(scancode);
                assert(received@ + channel@.bytes =~= got + before.bytes);
            },
            Poll::Pending => {
                assert(received@ + channel@.bytes =~= received@);
                assert(channel@.bytes =~= Seq::<u8>::empty());
                break ;
            },
        }
    }
    Poll::Pending
}

} // verus!
