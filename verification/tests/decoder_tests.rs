use chip8::decoder::{DecodeError, Instruction};

fn from_nibbles(nibbles: [u16; 4]) -> u16 {
    (nibbles[0] << 12) | (nibbles[1] << 8) | (nibbles[2] << 4) | nibbles[3]
}

#[test]
fn test_clear_display_correct() {
    let code = from_nibbles([0, 0, 0xE, 0]);
    assert!(matches!(
        Instruction::decode(code),
        Ok(Instruction::ClearDisplay)
    ));
}

#[test]
fn test_return_correct() {
    let code = from_nibbles([0, 0, 0xE, 0xE]);
    assert!(matches!(Instruction::decode(code), Ok(Instruction::Return)));
}

#[test]
fn test_invalid_opcdes() {
    for opcode in [0xFFFF_u16, 0x8FAB, 0xE01B, 0x8FAB] {
        let result = Instruction::decode(opcode);
        assert!(matches!(result, Err(DecodeError::NoSuchInstruction(_))));
    }
}

#[test]
fn test_call_machine_code() {
    let result = Instruction::decode(0x0AB0).unwrap();
    assert!(
        matches!(result, Instruction::CallMachineCode { address } if address.into_inner() == 0xAB0)
    );
}

#[test]
fn test_goto() {
    let result = Instruction::decode(0x1ABC).unwrap();
    assert!(matches!(result, Instruction::Goto { address } if address.into_inner() == 0xABC));
}

#[test]
fn test_call_subroutine() {
    let result = Instruction::decode(0x2F04).unwrap();
    assert!(
        matches!(result, Instruction::CallSubroutine { address } if address.into_inner() == 0xF04)
    );
}

#[test]
fn test_skip_if_eq_const() {
    let result = Instruction::decode(0x3742).unwrap();
    assert!(
        matches!(result, Instruction::EqConst { x, value } if x.into_inner() == 0x7 && value == 0x42)
    );
}

#[test]
fn test_skip_if_neq_const() {
    let result = Instruction::decode(0x4742).unwrap();
    assert!(
        matches!(result, Instruction::NeqConst { x, value } if x.into_inner() == 0x7 && value == 0x42)
    );
}

#[test]
fn test_skip_if_eq_reg() {
    let result = Instruction::decode(0x5AB0).unwrap();
    assert!(
        matches!(result, Instruction::EqReg { x, y } if x.into_inner() == 0xA && y.into_inner() == 0xB)
    );
}

#[test]
fn test_load_const() {
    let result = Instruction::decode(0x6C2A).unwrap();
    assert!(
        matches!(result, Instruction::AssignConst { x, value } if x.into_inner() == 0xC && value == 0x2A)
    );
}

#[test]
fn test_add_assign_const_decodes() {
    let result = Instruction::decode(0x7C2A).unwrap();
    assert!(
        matches!(result, Instruction::AddAssignConst { x, value } if x.into_inner() == 0xC && value == 0x2A)
    );
}

#[test]
fn test_arithmetic_family_decodes() {
    assert!(matches!(
        Instruction::decode(0x8120).unwrap(),
        Instruction::AssignReg { .. }
    ));
    assert!(matches!(
        Instruction::decode(0x8121).unwrap(),
        Instruction::OrReg { .. }
    ));
    assert!(matches!(
        Instruction::decode(0x8122).unwrap(),
        Instruction::AndReg { .. }
    ));
    assert!(matches!(
        Instruction::decode(0x8123).unwrap(),
        Instruction::XorReg { .. }
    ));
    assert!(matches!(
        Instruction::decode(0x8124).unwrap(),
        Instruction::AddAssignReg { .. }
    ));
    assert!(matches!(
        Instruction::decode(0x8125).unwrap(),
        Instruction::SubAssignReg { .. }
    ));
    assert!(matches!(
        Instruction::decode(0x8126).unwrap(),
        Instruction::RShift { .. }
    ));
    assert!(matches!(
        Instruction::decode(0x8127).unwrap(),
        Instruction::SubAssignRegInverse { .. }
    ));
    assert!(matches!(
        Instruction::decode(0x812E).unwrap(),
        Instruction::LShift { .. }
    ));
}

#[test]
fn test_neq_reg_decodes() {
    let result = Instruction::decode(0x9AB0).unwrap();
    assert!(
        matches!(result, Instruction::NeqReg { x, y } if x.into_inner() == 0xA && y.into_inner() == 0xB)
    );
}

#[test]
fn test_set_address_decodes() {
    let result = Instruction::decode(0xA123).unwrap();
    assert!(matches!(result, Instruction::SetI { address } if address.into_inner() == 0x123));
}

#[test]
fn test_goto_plus_v0_decodes() {
    let result = Instruction::decode(0xB123).unwrap();
    assert!(matches!(result, Instruction::GotoPlusV0 { address } if address.into_inner() == 0x123));
}

#[test]
fn test_rand_decodes() {
    let result = Instruction::decode(0xC3EA).unwrap();
    assert!(
        matches!(result, Instruction::Rand { x, value } if x.into_inner() == 0x3 && value == 0xEA)
    );
}

#[test]
fn test_draw_sprites() {
    let result = Instruction::decode(0xD125).unwrap();
    assert!(matches!(
        result,
        Instruction::DrawSprite { x, y, height }
            if x.into_inner() == 0x1 && y.into_inner() == 0x2 && height.into_inner() == 5
    ));
}

#[test]
fn test_keypad_family_decodes() {
    assert!(
        matches!(Instruction::decode(0xE79E).unwrap(), Instruction::KeyPressedSkip { x } if x.into_inner() == 7)
    );
    assert!(
        matches!(Instruction::decode(0xE7A1).unwrap(), Instruction::KeyReleasedSkip { x } if x.into_inner() == 7)
    );
    assert!(
        matches!(Instruction::decode(0xF70A).unwrap(), Instruction::AwaitKeyPress { x } if x.into_inner() == 7)
    );
}

#[test]
fn test_misc_family_decodes() {
    assert!(matches!(
        Instruction::decode(0xF407).unwrap(),
        Instruction::GetDelayTimer { .. }
    ));
    assert!(matches!(
        Instruction::decode(0xF415).unwrap(),
        Instruction::SetDelayTimer { .. }
    ));
    assert!(matches!(
        Instruction::decode(0xF418).unwrap(),
        Instruction::SetSoundTimer { .. }
    ));
    assert!(matches!(
        Instruction::decode(0xF41E).unwrap(),
        Instruction::AddAssignAddress { .. }
    ));
    assert!(matches!(
        Instruction::decode(0xF429).unwrap(),
        Instruction::SetSpriteAddr { .. }
    ));
    assert!(matches!(
        Instruction::decode(0xF433).unwrap(),
        Instruction::SetBCD { .. }
    ));
    assert!(matches!(
        Instruction::decode(0xF455).unwrap(),
        Instruction::DumpRegisters { .. }
    ));
    assert!(matches!(
        Instruction::decode(0xF465).unwrap(),
        Instruction::LoadRegisters { .. }
    ));
}

#[test]
fn test_decode_total_and_reencodes() {
    // Every 16-bit word either decodes, and then re-encoding restores the
    // word exactly, or is rejected with the word echoed back.
    let mut accepted: u32 = 0;
    for word in 0..=0xFFFF_u16 {
        match Instruction::decode(word) {
            Ok(instruction) => {
                assert_eq!(instruction.encode(), word);
                accepted += 1;
            }
            Err(DecodeError::NoSuchInstruction(echoed)) => {
                assert_eq!(echoed, word);
            }
        }
    }
    assert!(accepted > 0x4000);
}
