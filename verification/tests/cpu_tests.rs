use chip8::cpu::{Cpu, CpuError};
use chip8::types::Index;

#[test]
fn test_new() {
    let cpu = Cpu::new();
    assert_eq!(cpu.program_counter(), 0x200);
    assert_eq!(cpu.address(), 0);
    assert_eq!(cpu.delay_timer(), 0);
    assert_eq!(cpu.stack_pointer(), 0);
    assert_eq!(cpu.stack(), [0; 16]);
}

#[test]
fn test_advance() {
    let mut cpu = Cpu::new();
    assert!(cpu.advance_program_counter(0x100).is_ok());
    assert_eq!(cpu.program_counter(), 0x300);
}

#[test]
fn test_set() {
    let mut cpu = Cpu::new();

    assert!(cpu.set_program_counter(0x100).is_ok());
    assert_eq!(cpu.program_counter(), 0x100);
}

#[test]
fn test_out_of_range() {
    let mut cpu = Cpu::new();
    assert!(matches!(
        cpu.set_program_counter(0x1000),
        Err(CpuError::PCOutOfRange)
    ));
}

#[test]
fn cpu_test_set() {
    let mut cpu = Cpu::new();
    assert!(cpu.set_address(0x100).is_ok());
    assert_eq!(cpu.address(), 0x100);
}

#[test]
fn cpu_test_advance() {
    let mut cpu = Cpu::new();
    assert!(cpu.advance_address(0x100).is_ok());
    assert_eq!(cpu.address(), 0x100);
}

#[test]
fn cpu_test_out_of_range() {
    let mut cpu = Cpu::new();
    assert!(matches!(
        cpu.set_address(0x1000),
        Err(CpuError::AddressOutOfRange)
    ));
}

#[test]
fn test_correct_opeation() {
    let mut cpu = Cpu::new();

    assert!(cpu.stack_push(0x100).is_ok());
    assert_eq!(cpu.stack_pointer(), 1);

    assert!(cpu.stack_push(0x200).is_ok());
    assert_eq!(cpu.stack_pointer(), 2);
}

#[test]
fn test_overflow() {
    let mut cpu = Cpu::new();

    for i in 0..16 {
        assert!(cpu.stack_push(i as u16).is_ok());
    }
    assert!(matches!(
        cpu.stack_push(0x100),
        Err(CpuError::StackLimitReached)
    ));
}

#[test]
fn test_empty_error() {
    let mut cpu = Cpu::new();
    assert!(matches!(cpu.stack_pop(), Err(CpuError::StackEmpty)));
}

#[test]
fn test_registers() {
    let mut cpu = Cpu::new();
    let index = Index::try_new(0).unwrap();
    cpu.set_vx(index, 0x10);
    assert_eq!(cpu.vx(index), 0x10);
}

#[test]
fn test_timers() {
    let mut cpu = Cpu::new();
    cpu.set_delay_timer(0x10);
    assert_eq!(cpu.delay_timer(), 0x10);

    cpu.set_sound_timer(0x20);
    assert_eq!(cpu.sound_timer(), 0x20);
}

#[test]
fn test_reproducible_randomness() {
    let mut cpu1 = Cpu::new();
    cpu1.reseed(42);

    let values = (0..10).map(|_| cpu1.random()).collect::<Vec<_>>();

    let mut cpu2 = Cpu::new();
    cpu2.reseed(42);

    let values2 = (0..10).map(|_| cpu2.random()).collect::<Vec<_>>();

    assert_eq!(values, values2);
}

#[test]
fn test_stack_push_pop_order() {
    let mut cpu = Cpu::new();
    assert!(cpu.stack_push(0x234).is_ok());
    assert!(cpu.stack_push(0x345).is_ok());
    assert_eq!(cpu.stack_pop().unwrap(), 0x345);
    assert_eq!(cpu.stack_pop().unwrap(), 0x234);
    assert!(matches!(cpu.stack_pop(), Err(CpuError::StackEmpty)));
}

#[test]
fn test_tick_timers_stop_at_zero() {
    let mut cpu = Cpu::new();
    cpu.set_delay_timer(2);
    cpu.set_sound_timer(1);
    cpu.tick_timers();
    assert_eq!(cpu.delay_timer(), 1);
    assert_eq!(cpu.sound_timer(), 0);
    cpu.tick_timers();
    assert_eq!(cpu.delay_timer(), 0);
    assert_eq!(cpu.sound_timer(), 0);
    cpu.tick_timers();
    assert_eq!(cpu.delay_timer(), 0);
    assert_eq!(cpu.sound_timer(), 0);
}
