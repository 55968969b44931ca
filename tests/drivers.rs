use chip8::keymap::{keypad_index, keypad_state};
use chip8::CartridgeDriver;

#[test]
fn keyboard_layout() {
    assert_eq!(keypad_index('1'), Some(0x1));
    assert_eq!(keypad_index('4'), Some(0xC));
    assert_eq!(keypad_index('Q'), Some(0x4));
    assert_eq!(keypad_index('R'), Some(0xD));
    assert_eq!(keypad_index('X'), Some(0x0));
    assert_eq!(keypad_index('V'), Some(0xF));
    assert_eq!(keypad_index('P'), None);
}

#[test]
fn keypad_snapshot_from_pressed_keys() {
    let keys = keypad_state(&vec!['1', 'V', 'P', 'A']);
    for k in 0..16 {
        assert_eq!(keys[k], k == 0x1 || k == 0xF || k == 0x7, "key {}", k);
    }
    assert_eq!(keypad_state(&vec![]), [false; 16]);
}

#[test]
fn cartridge_hands_out_its_bytes() {
    let c = CartridgeDriver::from_bytes(vec![0x12, 0x00, 0xFF]);
    assert_eq!(c.get(), vec![0x12, 0x00, 0xFF]);
}
