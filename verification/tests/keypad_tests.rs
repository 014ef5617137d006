use chip8::keypad::{Keypad, KeypadError};

#[test]
fn test_simple_press() {
    for key in [0x0_u8, 0xF, 0xA] {
        let mut keypad = Keypad::new();
        keypad.set_key_state(key, true).unwrap();

        assert!(keypad.is_pressed(key).unwrap());
    }
}

#[test]
fn test_simple_press_release() {
    let mut keypad = Keypad::new();
    keypad.set_key_state(0xC, true).unwrap();
    keypad.set_key_state(0xD, true).unwrap();
    keypad.set_key_state(0xC, false).unwrap();

    assert!(!keypad.is_pressed(0xC).unwrap());
    assert!(keypad.is_pressed(0xD).unwrap());
}

#[test]
fn test_invalid_key() {
    let mut keypad = Keypad::new();
    assert!(matches!(
        keypad.set_key_state(0x10, true),
        Err(KeypadError::NoSuchKey)
    ));
}

#[test]
fn test_any_pressed_lowest() {
    let mut keypad = Keypad::new();
    assert_eq!(keypad.any_pressed(), None);
    keypad.set_key_state(0xB, true).unwrap();
    keypad.set_key_state(0x3, true).unwrap();
    assert_eq!(keypad.any_pressed(), Some(0x3));
    keypad.set_key_state(0x3, false).unwrap();
    assert_eq!(keypad.any_pressed(), Some(0xB));
}
