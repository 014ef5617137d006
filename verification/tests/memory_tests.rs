use chip8::memory::{Memory, MemoryError};

#[test]
fn test_incorrect_sprite_index() {
    let memory = Memory::new();

    assert!(matches!(
        memory.read_sprite_address(0xF + 2),
        Err(MemoryError::IncorrectSprite)
    ));
}

#[test]
fn test_correct_sprite_indexes() {
    let memory = Memory::new();

    // 5 rows for each digit
    for index in [0x0_u8, 0xF, 0x8] {
        assert_eq!(memory.read_sprite_address(index).unwrap(), index as u16 * 5);
    }
}

#[test]
fn test_read_byte_out_of_range() {
    let memory = Memory::new();

    assert!(matches!(
        memory.read_byte(1 << 12),
        Err(MemoryError::OutOfRange(_))
    ));
}

#[test]
fn test_read_byte_correct() {
    let memory = Memory::new();

    for addr in [0x200_u16, 0xFFF, 0xB42] {
        assert_eq!(memory.read_byte(addr).unwrap(), 0);
    }
}

#[test]
fn test_read_word_out_of_range() {
    let memory = Memory::new();

    assert!(matches!(
        memory.read_word(1 << 12),
        Err(MemoryError::OutOfRange(_))
    ));

    // edge case when the hi in word is in memory, but lo is outside of it
    assert!(matches!(
        memory.read_word((1 << 12) - 1),
        Err(MemoryError::OutOfRange(_))
    ));
}

#[test]
fn test_read_word_correct() {
    let memory = Memory::new();

    // 0xFFF - 1 because a word read takes 2 bytes at a time
    for addr in [0x200_u16, 0xFFE, 0xB42] {
        assert_eq!(memory.read_word(addr).unwrap(), 0);
    }
}

#[test]
fn test_load_permission_denied() {
    let mut memory = Memory::new();
    assert!(matches!(
        memory.load(0x100, &[0xAA]),
        Err(MemoryError::PermissionDenied)
    ));
}

#[test]
fn test_load_out_of_range() {
    let mut memory = Memory::new();
    assert!(matches!(
        memory.load(0xFFF, &[0xAA, 0xBB]),
        Err(MemoryError::OutOfRange(_))
    ));
}

#[test]
fn test_read_write_cycle() {
    let mut memory = Memory::new();
    memory.load(0x200, &[0xAB, 0xCD]).unwrap();
    assert_eq!(memory.read_byte(0x200).unwrap(), 0xAB);
    assert_eq!(memory.read_word(0x200).unwrap(), 0xABCD);
}

#[test]
fn test_font_table_contents() {
    let memory = Memory::new();
    // The glyph for digit 0 occupies the first five bytes.
    let zero = [0xF0, 0x90, 0x90, 0x90, 0xF0];
    for (i, byte) in zero.iter().enumerate() {
        assert_eq!(memory.read_byte(i as u16).unwrap(), *byte);
    }
    // The glyph for digit F starts at 15 * 5.
    let eff = [0xF0, 0x80, 0xF0, 0x80, 0x80];
    for (i, byte) in eff.iter().enumerate() {
        assert_eq!(memory.read_byte(75 + i as u16).unwrap(), *byte);
    }
}
