use blog_os::interrupts::{InterruptIndex, KEYBOARD_DATA_PORT, PIC_1_OFFSET, PIC_2_OFFSET};

#[test]
fn controller_offsets() {
    assert_eq!(PIC_1_OFFSET, 32);
    assert_eq!(PIC_2_OFFSET, 40);
    assert_eq!(PIC_2_OFFSET, PIC_1_OFFSET + 8);
}

#[test]
fn timer_and_keyboard_vectors() {
    assert_eq!(InterruptIndex::Timer.as_u8(), 32);
    assert_eq!(InterruptIndex::Keyboard.as_u8(), 33);
    assert_eq!(InterruptIndex::Timer.as_usize(), 32);
    assert_eq!(InterruptIndex::Keyboard.as_usize(), 33);
}

#[test]
fn vectors_lie_on_the_first_controller() {
    for index in [InterruptIndex::Timer, InterruptIndex::Keyboard] {
        assert!(index.as_u8() >= PIC_1_OFFSET);
        assert!(index.as_u8() < PIC_2_OFFSET);
        assert_eq!(index.as_usize(), usize::from(index.as_u8()));
    }
    assert_ne!(InterruptIndex::Timer.as_u8(), InterruptIndex::Keyboard.as_u8());
}

#[test]
fn keyboard_port() {
    assert_eq!(KEYBOARD_DATA_PORT, 0x60);
}
