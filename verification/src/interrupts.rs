//! Interrupt lines: where the two chained interrupt controllers are mapped,
//! and the vector of each device that this kernel listens to.

use vstd::prelude::*;

verus! {

/// The vector at which the lines of the first interrupt controller begin: the
/// first one past the 32 vectors that the processor keeps for its exceptions.
pub const PIC_1_OFFSET: u8 = 32;

/// The vector at which the lines of the second controller begin. Each
/// controller has eight lines, and the second follows the first.
pub const PIC_2_OFFSET: u8 = PIC_1_OFFSET + 8;

/// The I/O port from which the keyboard handler reads one byte per interrupt.
pub const KEYBOARD_DATA_PORT: u16 = 0x60;

/// The devices whose interrupts are handled, each with a fixed vector.
#[derive(Debug, Clone, Copy, PartialEq, Eq, Structural)]
pub enum InterruptIndex {
    /// The timer, on the first line of the first controller.
    Timer,
    /// The keyboard, on the line after the timer's.
    Keyboard,
}

impl InterruptIndex {
    /// The interrupt vector of the device. It is also the index under which
    /// the end of the interrupt is acknowledged.
    pub open spec fn vector(self) -> u8 {
        match self {
            InterruptIndex::Timer => PIC_1_OFFSET,
            InterruptIndex::Keyboard => (PIC_1_OFFSET + 1) as u8,
        }
    }

    /// The vector as a byte, as the interrupt controller wants it.
    pub fn as_u8(self) -> (vector: u8)
        ensures
            vector == self.vector(),
    {
        match self {
            InterruptIndex::Timer => PIC_1_OFFSET,
            InterruptIndex::Keyboard => PIC_1_OFFSET + 1,
        }
    }

    /// The vector as an index into the interrupt descriptor table.
    pub fn as_usize(self) -> (vector: usize)
        ensures
            vector == self.vector(),
    {
        self.as_u8() as usize
    }
}

/// Every device sits on a line of the first controller, past the vectors of
/// the processor's own exceptions, and no two devices share a vector.
pub proof fn law_devices_have_their_own_lines(a: InterruptIndex, b: InterruptIndex)
    ensures
        32 <= PIC_1_OFFSET,
        PIC_2_OFFSET == PIC_1_OFFSET + 8,
        PIC_1_OFFSET <= a.vector() < PIC_2_OFFSET,
        a != b ==> a.vector() != b.vector(),
{
}

} // verus!
