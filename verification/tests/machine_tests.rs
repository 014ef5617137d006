use chip8::decoder::Instruction;
use chip8::machine::{Chip8, Chip8Error, ExecResult};
use chip8::types::{Address, Index, SpriteHeight};
use rand::rngs::SmallRng;
use rand::{Rng, SeedableRng};

fn v0() -> Index {
    Index::try_new(0x0).unwrap()
}

fn v4() -> Index {
    Index::try_new(0x4).unwrap()
}

fn vf() -> Index {
    Index::try_new(0xF).unwrap()
}

const BITOP_VX: u8 = 0x4F;
const BITOP_VY: u8 = 0xC4;

fn bitop_setup() -> (Chip8, Index, Index) {
    let index_x = Index::try_new(0x4).unwrap();
    let index_y = Index::try_new(0xD).unwrap();
    let mut chip8 = Chip8::new();
    chip8.cpu.set_vx(index_x, BITOP_VX);
    chip8.cpu.set_vx(index_y, BITOP_VY);
    (chip8, index_x, index_y)
}

const MATH_VX: u8 = 0x74;
const MATH_VY: u8 = 0x3F;

fn math_setup() -> (Chip8, Index, Index) {
    let index_x = Index::try_new(0x4).unwrap();
    let index_y = Index::try_new(0xD).unwrap();
    let mut chip8 = Chip8::new();
    chip8.cpu.set_vx(index_x, MATH_VX);
    chip8.cpu.set_vx(index_y, MATH_VY);
    (chip8, index_x, index_y)
}

#[test]
fn test_unsupported_instruction_error() {
    let mut chip8 = Chip8::new();
    let instr = Instruction::CallMachineCode {
        address: Address::try_new(0xAB0).unwrap(),
    };

    assert!(matches!(
        chip8.execute(instr),
        Err(Chip8Error::UnsupportedInstruction)
    ));
}

#[test]
fn test_assign_const() {
    let mut chip8 = Chip8::new();
    chip8.cpu.set_vx(v0(), 0);

    let instr = Instruction::AssignConst { x: v0(), value: 42 };

    assert!(matches!(chip8.execute(instr), Ok(ExecResult::Advance)));
    assert_eq!(chip8.cpu.vx(v0()), 42);
}

#[test]
fn test_add_assign_const() {
    let mut chip8 = Chip8::new();
    chip8.cpu.set_vx(v0(), 0xF);

    let instr = Instruction::AddAssignConst { x: v0(), value: 42 };

    assert!(matches!(chip8.execute(instr), Ok(ExecResult::Advance)));
    assert_eq!(chip8.cpu.vx(v0()), 57);
}

#[test]
fn test_assign_reg() {
    let mut chip8 = Chip8::new();
    let index_y = Index::try_new(0xD).unwrap();
    chip8.cpu.set_vx(v0(), 0);
    chip8.cpu.set_vx(index_y, 0xC4);

    let instr = Instruction::AssignReg { x: v0(), y: index_y };

    assert!(matches!(chip8.execute(instr), Ok(ExecResult::Advance)));
    assert_eq!(chip8.cpu.vx(v0()), 0xC4);
}

#[test]
fn test_random() {
    let mut chip8 = Chip8::new();
    chip8.cpu.reseed(42);

    let mut rng = SmallRng::seed_from_u64(42);

    let instr = Instruction::Rand { x: v0(), value: 0xEA };
    assert!(matches!(chip8.execute(instr), Ok(ExecResult::Advance)));
    let drawn: u8 = rng.random_range(0x0..=0xFF);
    assert_eq!(chip8.cpu.vx(v0()), drawn & 0xEA);
}

#[test]
fn test_bcd() {
    for num in 0x0..=0xFF_u8 {
        let ones = num % 10;
        let tens = (num / 10) % 10;
        let hundreds = num / 100;

        let mut chip8 = Chip8::new();

        chip8.cpu.set_vx(v0(), num);
        let instr = Instruction::SetBCD { x: v0() };
        chip8.cpu.set_address(0x400).unwrap();

        chip8.execute(instr).unwrap();

        assert_eq!(chip8.memory.read_byte(0x400).unwrap(), hundreds);
        assert_eq!(chip8.memory.read_byte(0x401).unwrap(), tens);
        assert_eq!(chip8.memory.read_byte(0x402).unwrap(), ones);
    }
}

#[test]
fn test_or_reg() {
    let (mut chip8, x, y) = bitop_setup();
    let instr = Instruction::OrReg { x, y };

    assert!(matches!(chip8.execute(instr), Ok(ExecResult::Advance)));
    assert_eq!(chip8.cpu.vx(x), BITOP_VY | BITOP_VX);
}

#[test]
fn test_and_reg() {
    let (mut chip8, x, y) = bitop_setup();
    let instr = Instruction::AndReg { x, y };

    assert!(matches!(chip8.execute(instr), Ok(ExecResult::Advance)));
    assert_eq!(chip8.cpu.vx(x), BITOP_VY & BITOP_VX);
}

#[test]
fn test_xor_reg() {
    let (mut chip8, x, y) = bitop_setup();
    let instr = Instruction::XorReg { x, y };

    assert!(matches!(chip8.execute(instr), Ok(ExecResult::Advance)));
    assert_eq!(chip8.cpu.vx(x), BITOP_VY ^ BITOP_VX);
}

#[test]
fn test_rshift() {
    let (mut chip8, x, y) = bitop_setup();
    let instr = Instruction::RShift { x, y };

    assert!(matches!(chip8.execute(instr), Ok(ExecResult::Advance)));
    assert_eq!(chip8.cpu.vx(x), BITOP_VX >> 1);
    assert_eq!(chip8.cpu.vx(vf()), 1);
}

#[test]
fn test_lshift() {
    let (mut chip8, x, y) = bitop_setup();
    let instr = Instruction::LShift { x, y };

    assert!(matches!(chip8.execute(instr), Ok(ExecResult::Advance)));
    assert_eq!(chip8.cpu.vx(x), BITOP_VX << 1);
    assert_eq!(chip8.cpu.vx(vf()), 0);

    assert!(matches!(chip8.execute(instr), Ok(ExecResult::Advance)));
    assert_eq!(chip8.cpu.vx(x), BITOP_VX << 2);
    assert_eq!(chip8.cpu.vx(vf()), 1);
}

#[test]
fn test_add_assign_reg() {
    let (mut chip8, x, y) = math_setup();
    let instr = Instruction::AddAssignReg { x, y };

    assert!(matches!(chip8.execute(instr), Ok(ExecResult::Advance)));
    assert_eq!(chip8.cpu.vx(x), MATH_VX + MATH_VY);
}

#[test]
fn test_sub_assign_reg() {
    let (mut chip8, x, y) = math_setup();
    let instr = Instruction::SubAssignReg { x, y };

    assert!(matches!(chip8.execute(instr), Ok(ExecResult::Advance)));
    assert_eq!(chip8.cpu.vx(x), MATH_VX - MATH_VY);
}

#[test]
fn test_sub_assign_reg_inverse() {
    let (mut chip8, x, y) = math_setup();
    chip8.cpu.set_vx(x, MATH_VY);
    chip8.cpu.set_vx(y, MATH_VX);

    let instr = Instruction::SubAssignRegInverse { x, y };

    assert!(matches!(chip8.execute(instr), Ok(ExecResult::Advance)));
    assert_eq!(chip8.cpu.vx(x), MATH_VX - MATH_VY);
}

#[test]
fn test_eq_const_skips_when_equal() {
    let mut chip8 = Chip8::new();
    chip8.cpu.set_vx(v0(), 42);

    let instr = Instruction::EqConst { x: v0(), value: 42 };

    assert!(matches!(chip8.execute(instr), Ok(ExecResult::Skip)));
}

#[test]
fn test_eq_const_stays_when_not_equal() {
    let mut chip8 = Chip8::new();
    chip8.cpu.set_vx(v0(), 0);

    let instr = Instruction::EqConst { x: v0(), value: 42 };

    assert!(matches!(chip8.execute(instr), Ok(ExecResult::Advance)));
}

#[test]
fn test_neq_const_stays_when_equal() {
    let mut chip8 = Chip8::new();
    chip8.cpu.set_vx(v0(), 42);

    let instr = Instruction::NeqConst { x: v0(), value: 42 };

    assert!(matches!(chip8.execute(instr), Ok(ExecResult::Advance)));
}

#[test]
fn test_neq_const_skips_when_not_equal() {
    let mut chip8 = Chip8::new();
    chip8.cpu.set_vx(v0(), 0);

    let instr = Instruction::NeqConst { x: v0(), value: 42 };

    assert!(matches!(chip8.execute(instr), Ok(ExecResult::Skip)));
}

#[test]
fn test_eq_reg_skips_when_equal() {
    let mut chip8 = Chip8::new();
    chip8.cpu.set_vx(v0(), 42);
    chip8.cpu.set_vx(v4(), 42);

    let instr = Instruction::EqReg { x: v0(), y: v4() };

    assert!(matches!(chip8.execute(instr), Ok(ExecResult::Skip)));
}

#[test]
fn test_eq_reg_stays_when_not_equal() {
    let mut chip8 = Chip8::new();
    chip8.cpu.set_vx(v0(), 0);
    chip8.cpu.set_vx(v4(), 42);

    let instr = Instruction::EqReg { x: v0(), y: v4() };

    assert!(matches!(chip8.execute(instr), Ok(ExecResult::Advance)));
}

#[test]
fn test_neq_reg_stays_when_equal() {
    let mut chip8 = Chip8::new();
    chip8.cpu.set_vx(v0(), 42);
    chip8.cpu.set_vx(v4(), 42);

    let instr = Instruction::NeqReg { x: v0(), y: v4() };

    assert!(matches!(chip8.execute(instr), Ok(ExecResult::Advance)));
}

#[test]
fn test_neq_reg_skips_when_not_equal() {
    let mut chip8 = Chip8::new();
    chip8.cpu.set_vx(v0(), 0);
    chip8.cpu.set_vx(v4(), 42);

    let instr = Instruction::NeqReg { x: v0(), y: v4() };

    assert!(matches!(chip8.execute(instr), Ok(ExecResult::Skip)));
}

#[test]
fn test_add_carry_flag_all_pairs() {
    // add sets VF to 1 exactly when the true sum exceeds 255
    let x = Index::try_new(1).unwrap();
    let y = Index::try_new(2).unwrap();
    for a in (0..=255u8).step_by(17) {
        for b in 0..=255u8 {
            let mut chip8 = Chip8::new();
            chip8.cpu.set_vx(x, a);
            chip8.cpu.set_vx(y, b);
            chip8.execute(Instruction::AddAssignReg { x, y }).unwrap();
            assert_eq!(chip8.cpu.vx(x), a.wrapping_add(b));
            assert_eq!(chip8.cpu.vx(vf()), (a as u16 + b as u16 > 255) as u8);
        }
    }
}

#[test]
fn test_sub_borrow_flag_all_pairs() {
    // sub sets VF to 1 exactly when no borrow occurs (minuend >= subtrahend)
    let x = Index::try_new(1).unwrap();
    let y = Index::try_new(2).unwrap();
    for a in (0..=255u8).step_by(17) {
        for b in 0..=255u8 {
            let mut chip8 = Chip8::new();
            chip8.cpu.set_vx(x, a);
            chip8.cpu.set_vx(y, b);
            chip8.execute(Instruction::SubAssignReg { x, y }).unwrap();
            assert_eq!(chip8.cpu.vx(x), a.wrapping_sub(b));
            assert_eq!(chip8.cpu.vx(vf()), (a >= b) as u8);
        }
    }
}

#[test]
fn test_shift_flags_all_values() {
    // right shift captures bit 0 before shifting; left shift captures bit 7
    let x = Index::try_new(3).unwrap();
    let y = Index::try_new(4).unwrap();
    for v in 0..=255u8 {
        let mut chip8 = Chip8::new();
        chip8.cpu.set_vx(x, v);
        chip8.execute(Instruction::RShift { x, y }).unwrap();
        assert_eq!(chip8.cpu.vx(x), v >> 1);
        assert_eq!(chip8.cpu.vx(vf()), v & 1);

        let mut chip8 = Chip8::new();
        chip8.cpu.set_vx(x, v);
        chip8.execute(Instruction::LShift { x, y }).unwrap();
        assert_eq!(chip8.cpu.vx(x), v << 1);
        assert_eq!(chip8.cpu.vx(vf()), (v >> 7) & 1);
    }
}

#[test]
fn test_draw_sprite_reads_memory_at_address_register() {
    // Drawing the glyph for digit 3 must reproduce the font bytes on screen.
    let mut chip8 = Chip8::new();
    chip8.cpu.set_vx(v0(), 3);
    chip8.execute(Instruction::SetSpriteAddr { x: v0() }).unwrap();
    chip8.cpu.set_vx(v0(), 0);
    chip8
        .execute(Instruction::DrawSprite {
            x: v0(),
            y: v0(),
            height: SpriteHeight::try_new(5).unwrap(),
        })
        .unwrap();
    // Glyph "3" = F0 10 F0 10 F0: the top row lights columns 0 through 3.
    let state = chip8.display_snapshot();
    assert!(state[0][0] && state[0][1] && state[0][2] && state[0][3]);
    assert!(!state[0][4]);
    assert!(!state[1][0]);
    assert!(state[1][3]);
}
