//! The cooperative, interrupt-driven task scheduling core of a small kernel.
//!
//! Interrupt handlers hand bytes to a bounded [`scancode`] channel and wake the
//! task that waits for them; the executor in [`task::executor`] polls ready
//! tasks in the order in which they became ready and tells its caller when the
//! processor may halt. Every piece of state is an owned value, and every event
//! (an interrupt, a spawn, a poll) is one call that takes the state from
//! before to after.

pub mod interrupts;
pub mod scancode;
pub mod task;
