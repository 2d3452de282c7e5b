use chip8_emu::keypad::{ButtonCode, Keypad};
use chip8_emu::memory::Memory;

#[test]
fn memory_starts_zeroed() {
    let memory = Memory::new();
    assert_eq!(memory.load(0), 0);
    assert_eq!(memory.load(0x200), 0);
    assert_eq!(memory.load(4095), 0);
}

#[test]
fn memory_store_then_load() {
    let mut memory = Memory::new();
    memory.store(0x123, 0xAB);
    memory.store(4095, 0x01);
    assert_eq!(memory.load(0x123), 0xAB);
    assert_eq!(memory.load(4095), 0x01);
    assert_eq!(memory.load(0x122), 0);
    assert_eq!(memory.load(0x124), 0);
    memory.store(0x123, 0xCD);
    assert_eq!(memory.load(0x123), 0xCD);
}

#[test]
fn keypad_starts_released() {
    let keypad = Keypad::new();
    for idx in 0..16u8 {
        assert!(!keypad.is_pressed_idx(idx));
    }
}

#[test]
fn keypad_press_and_release() {
    let mut keypad = Keypad::new();
    keypad.set_pressed(ButtonCode::B5, true);
    assert!(keypad.is_pressed_code(ButtonCode::B5));
    assert!(keypad.is_pressed_idx(5));
    assert!(!keypad.is_pressed_idx(4));
    assert!(!keypad.is_pressed_idx(6));
    keypad.set_pressed(ButtonCode::B5, false);
    assert!(!keypad.is_pressed_code(ButtonCode::B5));
    assert!(!keypad.is_pressed_idx(5));
}

#[test]
fn button_indices_follow_pad_layout() {
    let layout = [
        ButtonCode::B1,
        ButtonCode::B2,
        ButtonCode::B3,
        ButtonCode::BC,
        ButtonCode::B4,
        ButtonCode::B5,
        ButtonCode::B6,
        ButtonCode::BD,
        ButtonCode::B7,
        ButtonCode::B8,
        ButtonCode::B9,
        ButtonCode::BE,
        ButtonCode::BA,
        ButtonCode::B0,
        ButtonCode::BB,
        ButtonCode::BF,
    ];
    for (position, button) in layout.iter().enumerate() {
        assert_eq!(button.index() as usize, position);
        let mut keypad = Keypad::new();
        keypad.set_pressed(*button, true);
        for idx in 0..16u8 {
            assert_eq!(keypad.is_pressed_idx(idx), idx as usize == position);
        }
    }
}
